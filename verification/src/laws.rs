//! What holds of every store, whatever is uploaded to it and in whatever
//! order. Each law is stated over plain sequences of posts and proved from
//! the definitions that the contracts of [`crate::store::Store`] use.

use vstd::prelude::*;
use crate::decimal::decimal;
use crate::ingest::{
    lemma_preamble_is_stripped, persisted, stream_body, stream_failure, ReadView, PREAMBLE_LEN,
};
use crate::metadata::{describe, has_no_comma, lemma_record_reads_back, PostMetaView};
use crate::store::{
    distinct_names, fetched, first_named, holds, ingested, lemma_first_named,
    lemma_first_named_is, lemma_holds, listing, post_of, NotFound, PostView,
};

verus! {

/// One upload: the name it was given, what its stream brought, and who sent
/// it when.
pub struct Upload {
    pub name: Seq<char>,
    pub events: Seq<ReadView>,
    pub origin: Seq<char>,
    pub started_at: Seq<char>,
}

/// The posts after `upload` has been taken in.
pub open spec fn after_upload(posts: Seq<PostView>, upload: Upload) -> Seq<PostView> {
    ingested(posts, upload.name, upload.events, upload.origin, upload.started_at)
}

/// The posts after `uploads` have been taken in, one after the other.
pub open spec fn after_uploads(posts: Seq<PostView>, uploads: Seq<Upload>) -> Seq<PostView>
    decreases uploads.len(),
{
    if uploads.len() == 0 {
        posts
    } else {
        after_uploads(after_upload(posts, uploads[0]), uploads.skip(1))
    }
}

/// Every upload of the run bears a name that was free when its turn came.
pub open spec fn each_allocated(posts: Seq<PostView>, uploads: Seq<Upload>) -> bool
    decreases uploads.len(),
{
    uploads.len() == 0 || (!holds(posts, uploads[0].name) && each_allocated(
        after_upload(posts, uploads[0]),
        uploads.skip(1),
    ))
}

/// The post that `upload` leaves.
pub open spec fn left_by(upload: Upload) -> PostView {
    post_of(upload.name, upload.events, upload.origin, upload.started_at)
}

/// Where a name is found once a post has been added at the end: where it
/// was before, or at the new post if it was nowhere and the new post bears it.
pub proof fn lemma_first_named_after_push(posts: Seq<PostView>, post: PostView, name: Seq<char>)
    ensures
        holds(posts, name) ==> first_named(posts.push(post), name, 0) == first_named(
            posts,
            name,
            0,
        ),
        !holds(posts, name) && post.name == name ==> first_named(posts.push(post), name, 0)
            == posts.len(),
        !holds(posts, name) && post.name != name ==> !holds(posts.push(post), name),
{
    lemma_first_named(posts, name, 0);
    let at = first_named(posts, name, 0);
    let grown = posts.push(post);
    if holds(posts, name) {
        lemma_first_named_is(grown, name, 0, at);
    } else if post.name == name {
        lemma_first_named_is(grown, name, 0, posts.len() as int);
    } else {
        lemma_first_named_is(grown, name, 0, grown.len() as int);
    }
}

/// An upload under a free name adds one post and keeps the names distinct.
pub proof fn lemma_upload_keeps_names_distinct(posts: Seq<PostView>, upload: Upload)
    requires
        distinct_names(posts),
    ensures
        distinct_names(after_upload(posts, upload)),
{
    lemma_holds(posts, upload.name);
}

/// Uploads never meet: after any run of uploads, each under a name that was
/// free when its turn came, the store holds one post more for each of them,
/// every post that was there before is where and what it was, each upload's
/// post stands in its turn with the bytes and record that the upload left, and
/// no two posts share a name. So the names of the run are all different, and
/// none of its uploads has written over another or over an older post.
pub proof fn lemma_uploads_never_meet(posts: Seq<PostView>, uploads: Seq<Upload>)
    requires
        distinct_names(posts),
        each_allocated(posts, uploads),
    ensures
        distinct_names(after_uploads(posts, uploads)),
        after_uploads(posts, uploads).len() == posts.len() + uploads.len(),
        after_uploads(posts, uploads).take(posts.len() as int) == posts,
        forall|k: int|
            0 <= k < uploads.len() ==> after_uploads(posts, uploads)[posts.len() + k] == left_by(
                #[trigger] uploads[k],
            ),
        forall|i: int, j: int|
            0 <= i < j < uploads.len() ==> (#[trigger] uploads[i]).name != (
            #[trigger] uploads[j]).name,
    decreases uploads.len(),
{
    let end = after_uploads(posts, uploads);
    if uploads.len() > 0 {
        let next = after_upload(posts, uploads[0]);
        let rest = uploads.skip(1);
        lemma_upload_keeps_names_distinct(posts, uploads[0]);
        lemma_uploads_never_meet(next, rest);
        assert forall|k: int| 0 <= k < uploads.len() implies end[posts.len() + k] == left_by(
            #[trigger] uploads[k],
        ) by {
            if k == 0 {
                assert(end.take(next.len() as int)[posts.len() as int] == next[posts.len() as int]);
            } else {
                assert(end[next.len() + (k - 1)] == left_by(rest[k - 1]));
            }
        }
    }
}

/// An upload writes over nothing: whatever name it is given, every post
/// that could be fetched before is fetched afterwards with the same bytes.
pub proof fn lemma_upload_overwrites_nothing(
    posts: Seq<PostView>,
    upload: Upload,
    other: Seq<char>,
)
    requires
        holds(posts, other),
    ensures
        fetched(after_upload(posts, upload), other) == fetched(posts, other),
{
    lemma_first_named(posts, other, 0);
    if !holds(posts, upload.name) {
        lemma_first_named_after_push(posts, left_by(upload), other);
    }
}

/// What was uploaded is what is fetched: after an upload under a free name,
/// a request for that name gives the body that the stream delivered, less its
/// preamble, byte for byte.
pub proof fn lemma_round_trip(posts: Seq<PostView>, upload: Upload)
    requires
        !holds(posts, upload.name),
    ensures
        fetched(after_upload(posts, upload), upload.name) == Ok::<Seq<u8>, NotFound>(
            persisted(stream_body(upload.events)),
        ),
{
    lemma_first_named_after_push(posts, left_by(upload), upload.name);
}

/// Where the stream delivers an eight-byte preamble and then `payload`, the
/// post that is fetched afterwards is `payload`, and its length is the number
/// of bytes that the upload reports.
pub proof fn lemma_upload_keeps_payload(
    posts: Seq<PostView>,
    upload: Upload,
    preamble: Seq<u8>,
    payload: Seq<u8>,
)
    requires
        !holds(posts, upload.name),
        preamble.len() == PREAMBLE_LEN,
        stream_body(upload.events) == preamble + payload,
    ensures
        fetched(after_upload(posts, upload), upload.name) == Ok::<Seq<u8>, NotFound>(
            payload,
        ),
        persisted(stream_body(upload.events)).len() == payload.len(),
{
    lemma_round_trip(posts, upload);
    lemma_preamble_is_stripped(preamble, payload);
}

/// After an upload that ended in order, the listing shows the post under its
/// name with the size that was kept, the time the upload began and the address
/// it came from, provided that neither the time nor the address holds a comma.
pub proof fn lemma_listing_shows_upload(posts: Seq<PostView>, upload: Upload)
    requires
        !holds(posts, upload.name),
        stream_failure(upload.events) is None,
        has_no_comma(upload.started_at),
        has_no_comma(upload.origin),
    ensures
        listing(after_upload(posts, upload)).len() == posts.len() + 1,
        listing(after_upload(posts, upload)).last() == (
            upload.name,
            PostMetaView {
                size: Some(decimal(persisted(stream_body(upload.events)).len())),
                created_at: Some(upload.started_at),
                origin: Some(upload.origin),
            },
        ),
        forall|k: int|
            0 <= k < posts.len() ==> listing(after_upload(posts, upload))[k] == listing(posts)[k],
{
    lemma_record_reads_back(
        persisted(stream_body(upload.events)).len(),
        upload.started_at,
        upload.origin,
    );
}

/// The posts with the record of the post at `index` gone.
pub open spec fn without_record(posts: Seq<PostView>, index: int) -> Seq<PostView> {
    posts.update(index, PostView { record: None, ..posts[index] })
}

/// A lost record costs a post its description and nothing else: the listing
/// is as long as before, shows the post under its name with every field
/// unknown, shows every other post as before, and the post is fetched as
/// before.
pub proof fn lemma_listing_without_record(posts: Seq<PostView>, index: int)
    requires
        0 <= index < posts.len(),
    ensures
        listing(without_record(posts, index)).len() == listing(posts).len(),
        listing(without_record(posts, index))[index] == (
            posts[index].name,
            PostMetaView { size: None, created_at: None, origin: None },
        ),
        forall|k: int|
            0 <= k < posts.len() && k != index ==> listing(without_record(posts, index))[k]
                == listing(posts)[k],
        forall|name: Seq<char>|
            fetched(without_record(posts, index), name) == #[trigger] fetched(posts, name),
{
    let less = without_record(posts, index);
    assert forall|name: Seq<char>| fetched(less, name) == #[trigger] fetched(posts, name) by {
        lemma_first_named(posts, name, 0);
        lemma_first_named_is(less, name, 0, first_named(posts, name, 0));
    }
}

/// A request is answered with [`NotFound`] exactly where no
/// post bears the name, and with the bytes of a post that bears it everywhere
/// else: never with bytes that no post holds.
pub proof fn lemma_not_found(posts: Seq<PostView>, name: Seq<char>)
    ensures
        fetched(posts, name) is Err <==> forall|k: int|
            0 <= k < posts.len() ==> (#[trigger] posts[k]).name != name,
        fetched(posts, name) is Ok ==> exists|k: int|
            0 <= k < posts.len() && (#[trigger] posts[k]).name == name && fetched(posts, name)
                == Ok::<Seq<u8>, NotFound>(posts[k].bytes),
{
    lemma_first_named(posts, name, 0);
    lemma_holds(posts, name);
}

} // verus!
