//! The store: posts by name, each written once, each with or without a
//! record beside it.
//!
//! [`Store`] keeps its posts in memory, in the order in which they came. The
//! rules it follows are stated over plain sequences of [`PostView`], so that
//! they can be held against any other keeper of posts as well.

use vstd::prelude::*;
use crate::ingest::{
    ingest_stream, persisted, reads, stream_body, stream_failure, Intake, IoError, ReadEvent,
    ReadView,
};
use crate::listing::listed;
use crate::metadata::{describe, describe_post, record_text, PostMeta, PostMetaView};
use crate::naming::{
    generate_random_name, is_first_free, is_fresh_name, is_url_safe_name,
    lemma_padded_is_url_safe, lemma_padded_step, next_candidate, padded,
};

verus! {

/// The answer to a request for a post that the store does not hold.
#[derive(Clone, Copy, Debug, PartialEq, Eq)]
pub struct NotFound;

/// A post as plain values: its name, its bytes, and the text of its record
/// where it has one.
pub struct PostView {
    pub name: Seq<char>,
    pub bytes: Seq<u8>,
    pub record: Option<Seq<char>>,
}

/// The position of the first post from `from` on that is called `name`, and
/// the number of posts if there is none.
pub open spec fn first_named(posts: Seq<PostView>, name: Seq<char>, from: int) -> int
    decreases posts.len() - from,
{
    if from >= posts.len() {
        posts.len() as int
    } else if posts[from].name == name {
        from
    } else {
        first_named(posts, name, from + 1)
    }
}

/// Whether a post called `name` is among `posts`.
pub open spec fn holds(posts: Seq<PostView>, name: Seq<char>) -> bool {
    first_named(posts, name, 0) < posts.len()
}

/// The names in use.
pub open spec fn names_of(posts: Seq<PostView>) -> Set<Seq<char>> {
    Set::new(|name: Seq<char>| holds(posts, name))
}

/// No two posts share a name.
pub open spec fn distinct_names(posts: Seq<PostView>) -> bool {
    forall|i: int, j: int| 0 <= i < j < posts.len() ==> posts[i].name != posts[j].name
}

/// What a request for the post called `name` gives: its bytes, or
/// [`NotFound`].
pub open spec fn fetched(posts: Seq<PostView>, name: Seq<char>) -> Result<Seq<u8>, NotFound> {
    if holds(posts, name) {
        Ok(posts[first_named(posts, name, 0)].bytes)
    } else {
        Err(NotFound)
    }
}

/// What a listing shows: every post in turn, by name, with what its record
/// says of it.
pub open spec fn listing(posts: Seq<PostView>) -> Seq<(Seq<char>, PostMetaView)> {
    Seq::new(posts.len(), |i: int| (posts[i].name, describe(posts[i].record)))
}

/// The record that an upload leaves: none where its stream failed.
pub open spec fn record_of(events: Seq<ReadView>, origin: Seq<char>, started_at: Seq<char>)
    -> Option<Seq<char>> {
    match stream_failure(events) {
        None => Some(record_text(persisted(stream_body(events)).len(), started_at, origin)),
        Some(_) => None,
    }
}

/// The post that an upload leaves: what was read of the body, less the
/// preamble, under the given name.
pub open spec fn post_of(
    name: Seq<char>,
    events: Seq<ReadView>,
    origin: Seq<char>,
    started_at: Seq<char>,
) -> PostView {
    PostView {
        name,
        bytes: persisted(stream_body(events)),
        record: record_of(events, origin, started_at),
    }
}

/// The posts after an upload under `name`: one more at the end if the name
/// was free, and the same as before if it was not.
pub open spec fn ingested(
    posts: Seq<PostView>,
    name: Seq<char>,
    events: Seq<ReadView>,
    origin: Seq<char>,
    started_at: Seq<char>,
) -> Seq<PostView> {
    if holds(posts, name) {
        posts
    } else {
        posts.push(post_of(name, events, origin, started_at))
    }
}

/// The length of the longest name in use.
pub open spec fn longest_name(posts: Seq<PostView>) -> nat
    decreases posts.len(),
{
    if posts.len() == 0 {
        0
    } else {
        let before = longest_name(posts.drop_last());
        if posts.last().name.len() > before {
            posts.last().name.len()
        } else {
            before
        }
    }
}

/// Where the first post of a name is: not before `from`, with no post of
/// that name in between.
pub proof fn lemma_first_named(posts: Seq<PostView>, name: Seq<char>, from: int)
    requires
        0 <= from <= posts.len(),
    ensures
        from <= first_named(posts, name, from) <= posts.len(),
        first_named(posts, name, from) < posts.len() ==> posts[first_named(
            posts,
            name,
            from,
        )].name == name,
        forall|k: int| from <= k < first_named(posts, name, from) ==> posts[k].name != name,
    decreases posts.len() - from,
{
    if from < posts.len() && posts[from].name != name {
        lemma_first_named(posts, name, from + 1);
    }
}

/// The first post of a name is at `at` if that is the first place from
/// `from` on that holds one, or the end where none does.
pub proof fn lemma_first_named_is(posts: Seq<PostView>, name: Seq<char>, from: int, at: int)
    requires
        0 <= from <= at <= posts.len(),
        forall|k: int| from <= k < at ==> posts[k].name != name,
        at < posts.len() ==> posts[at].name == name,
    ensures
        first_named(posts, name, from) == at,
    decreases at - from,
{
    if from < at {
        lemma_first_named_is(posts, name, from + 1, at);
    }
}

/// A name is in use exactly if some post bears it.
pub proof fn lemma_holds(posts: Seq<PostView>, name: Seq<char>)
    ensures
        holds(posts, name) <==> exists|k: int| 0 <= k < posts.len() && posts[k].name == name,
{
    lemma_first_named(posts, name, 0);
}

/// No name in use is longer than the longest.
pub proof fn lemma_longest_name(posts: Seq<PostView>, k: int)
    requires
        0 <= k < posts.len(),
    ensures
        posts[k].name.len() <= longest_name(posts),
    decreases posts.len(),
{
    if k < posts.len() - 1 {
        lemma_longest_name(posts.drop_last(), k);
    }
}

struct Post {
    name: String,
    bytes: Vec<u8>,
    record: Option<String>,
}

impl View for Post {
    type V = PostView;

    closed spec fn view(&self) -> PostView {
        PostView {
            name: self.name@,
            bytes: self.bytes@,
            record: match self.record {
                Some(text) => Some(text@),
                None => None,
            },
        }
    }
}

/// A store of posts in memory.
pub struct Store {
    posts: Vec<Post>,
}

impl View for Store {
    type V = Seq<PostView>;

    closed spec fn view(&self) -> Seq<PostView> {
        Seq::new(self.posts@.len(), |i: int| self.posts@[i]@)
    }
}

impl Store {
    /// What every store keeps to: no two of its posts share a name.
    #[verifier::type_invariant]
    spec fn names_are_distinct(&self) -> bool {
        distinct_names(self@)
    }

    /// A store without posts.
    pub fn new() -> (store: Store)
        ensures
            store@ == Seq::<PostView>::empty(),
    {
        let store = Store { posts: Vec::new() };
        store
    }

    /// The number of posts.
    pub fn len(&self) -> (count: usize)
        ensures
            count == self@.len(),
    {
        self.posts.len()
    }

    fn position(&self, name: &str) -> (at: usize)
        ensures
            at == first_named(self@, name@, 0),
            at <= self@.len(),
    {
        let wanted = String::from_str(name);
        let mut at: usize = 0;
        while at < self.posts.len()
            invariant
                0 <= at <= self.posts@.len(),
                wanted@ == name@,
                forall|k: int| 0 <= k < at ==> self@[k].name != name@,
            ensures
                0 <= at <= self.posts@.len(),
                forall|k: int| 0 <= k < at ==> self@[k].name != name@,
                at < self.posts@.len() ==> self@[at as int].name == name@,
            decreases self.posts@.len() - at,
        {
            if self.posts[at].name == wanted {
                break;
            }
            at = at + 1;
        }
        proof {
            lemma_first_named_is(self@, name@, 0, at as int);
        }
        at
    }

    /// Puts a post under a name that is not in use behind the others.
    fn append(&mut self, post: Post)
        requires
            !holds(old(self)@, post@.name),
        ensures
            final(self)@ == old(self)@.push(post@),
    {
        proof {
            use_type_invariant(&*self);
            lemma_holds(self@, post@.name);
        }
        let ghost before = self@;
        let mut posts: Vec<Post> = Vec::new();
        core::mem::swap(&mut self.posts, &mut posts);
        posts.push(post);
        assert(before.push(post@) =~= Seq::new(posts@.len(), |i: int| posts@[i]@));
        core::mem::swap(&mut self.posts, &mut posts);
    }

    /// Whether a post called `name` is in the store.
    pub fn contains(&self, name: &str) -> (found: bool)
        ensures
            found == holds(self@, name@),
    {
        self.position(name) < self.posts.len()
    }

    /// The bytes of the post called `name`. They are lent, not copied:
    /// however large the post, asking for it costs nothing.
    pub fn fetch(&self, name: &str) -> (result: Result<&Vec<u8>, NotFound>)
        ensures
            match result {
                Ok(bytes) => fetched(self@, name@) == Ok::<Seq<u8>, NotFound>(bytes@),
                Err(_) => fetched(self@, name@) is Err,
            },
    {
        let at = self.position(name);
        if at < self.posts.len() {
            Ok(&self.posts[at].bytes)
        } else {
            Err(NotFound)
        }
    }

    /// The first of `candidate`, `candidate_`, `candidate__`, ... that no
    /// post in the store is called.
    pub fn first_free(&self, candidate: String) -> (name: String)
        ensures
            is_first_free(names_of(self@), candidate@, name@),
            !holds(self@, name@),
    {
        let ghost base = candidate@;
        let ghost mut count: nat = 0;
        let mut name = candidate;
        proof {
            lemma_padded_step(base, 0);
        }
        while self.contains(name.as_str())
            invariant
                name@ == padded(base, count),
                forall|fewer: nat| fewer < count ==> holds(self@, #[trigger] padded(base, fewer)),
            decreases longest_name(self@) + 1 - name@.len(),
        {
            proof {
                lemma_first_named(self@, name@, 0);
                lemma_longest_name(self@, first_named(self@, name@, 0));
                lemma_padded_step(base, count);
                count = count + 1;
            }
            name = next_candidate(name);
        }
        name
    }

    /// A name for a new post: a fresh random name, or the first free one
    /// among it and its underscore-padded forms if it is taken. The name is
    /// URL-safe.
    pub fn allocate(&self) -> (name: String)
        ensures
            !holds(self@, name@),
            is_url_safe_name(name@),
            exists|base: Seq<char>|
                is_fresh_name(base) && #[trigger] is_first_free(names_of(self@), base, name@),
    {
        let fresh = generate_random_name();
        let ghost base = fresh@;
        let name = self.first_free(fresh);
        proof {
            let count = choose|count: nat|
                {
                    &&& name@ == #[trigger] padded(base, count)
                    &&& !names_of(self@).contains(name@)
                    &&& forall|fewer: nat|
                        fewer < count ==> names_of(self@).contains(#[trigger] padded(base, fewer))
                };
            lemma_padded_is_url_safe(base, count);
        }
        name
    }

    /// Takes in an upload under `name`. Where the name is in use, nothing
    /// changes and the upload is refused. Else the stream is read to its end
    /// or to its first failure, what lies behind the preamble is kept as a new
    /// post, and a stream that ended in order leaves a record beside it. The
    /// result is the number of bytes kept.
    pub fn ingest(
        &mut self,
        name: String,
        input: &Vec<ReadEvent>,
        origin: String,
        started_at: String,
    ) -> (result: Result<u64, IoError>)
        ensures
            distinct_names(final(self)@),
            final(self)@ == ingested(old(self)@, name@, reads(input@), origin@, started_at@),
            match result {
                Ok(count) => {
                    &&& !holds(old(self)@, name@)
                    &&& stream_failure(reads(input@)) is None
                    &&& count == persisted(stream_body(reads(input@))).len()
                },
                Err(IoError::AlreadyExists) => holds(old(self)@, name@),
                Err(IoError::Failed(text)) => {
                    &&& !holds(old(self)@, name@)
                    &&& stream_failure(reads(input@)) == Some(text@)
                },
            },
    {
        proof {
            use_type_invariant(&*self);
            lemma_holds(self@, name@);
        }
        if self.contains(name.as_str()) {
            return Err(IoError::AlreadyExists);
        }
        let Intake { kept, outcome } = ingest_stream(input, origin, started_at);
        match outcome {
            Ok(meta) => {
                let count = meta.size;
                let record = meta.to_record();
                let post = Post { name, bytes: kept, record: Some(record) };
                self.append(post);
                Ok(count)
            },
            Err(error) => {
                let post = Post { name, bytes: kept, record: None };
                self.append(post);
                Err(error)
            },
        }
    }

    /// Takes in an upload under a name of the store's choosing, as
    /// [`Store::allocate`] gives it, and returns that name with the outcome.
    /// The upload becomes a new post in any case, written over nothing; it has
    /// a record if its stream ended in order, and is cut short and without one
    /// if the stream failed.
    pub fn upload(&mut self, input: &Vec<ReadEvent>, origin: String, started_at: String) -> (receipt:
        (String, Result<u64, IoError>))
        ensures
            distinct_names(final(self)@),
            !holds(old(self)@, receipt.0@),
            is_url_safe_name(receipt.0@),
            exists|base: Seq<char>|
                is_fresh_name(base) && #[trigger] is_first_free(
                    names_of(old(self)@),
                    base,
                    receipt.0@,
                ),
            final(self)@ == old(self)@.push(
                post_of(receipt.0@, reads(input@), origin@, started_at@),
            ),
            match receipt.1 {
                Ok(count) => {
                    &&& stream_failure(reads(input@)) is None
                    &&& count == persisted(stream_body(reads(input@))).len()
                },
                Err(IoError::AlreadyExists) => false,
                Err(IoError::Failed(text)) => stream_failure(reads(input@)) == Some(text@),
            },
    {
        let name = self.allocate();
        let outcome = self.ingest(name.clone(), input, origin, started_at);
        (name, outcome)
    }

    /// Every post in turn, by name, with what its record says of it. A post
    /// without a record is listed with every field unknown.
    pub fn list(&self) -> (entries: Vec<(String, PostMeta)>)
        ensures
            listed(entries@) == listing(self@),
            distinct_names(self@),
    {
        proof {
            use_type_invariant(self);
        }
        let mut entries: Vec<(String, PostMeta)> = Vec::new();
        let mut at: usize = 0;
        while at < self.posts.len()
            invariant
                0 <= at <= self.posts@.len(),
                entries@.len() == at,
                forall|k: int|
                    0 <= k < at ==> (#[trigger] entries@[k]).0@ == self@[k].name && entries@[k].1@
                        == describe(self@[k].record),
            decreases self.posts@.len() - at,
        {
            let post = &self.posts[at];
            let meta = match &post.record {
                Some(text) => describe_post(Some(text.as_str())),
                None => describe_post(None),
            };
            entries.push((post.name.clone(), meta));
            at = at + 1;
        }
        entries
    }
}

} // verus!
