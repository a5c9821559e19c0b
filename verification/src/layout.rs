//! Where a keeper of files puts a post and its record: the post under
//! `posts/`, the record under `metadata/`, both under the post's name.

use vstd::prelude::*;

verus! {

/// The directory of the posts.
pub const POSTS_DIR: &'static str = "posts";

/// The directory of the records.
pub const METADATA_DIR: &'static str = "metadata";

/// The path of the post called `name`.
pub open spec fn post_path_of(name: Seq<char>) -> Seq<char> {
    POSTS_DIR@ + "/"@ + name
}

/// The path of the record of the post called `name`.
pub open spec fn record_path_of(name: Seq<char>) -> Seq<char> {
    METADATA_DIR@ + "/"@ + name
}

/// The path of the post called `name`.
pub fn post_path(name: &str) -> (path: String)
    ensures
        path@ == post_path_of(name@),
{
    String::from_str(POSTS_DIR).concat("/").concat(name)
}

/// The path of the record of the post called `name`.
pub fn record_path(name: &str) -> (path: String)
    ensures
        path@ == record_path_of(name@),
{
    String::from_str(METADATA_DIR).concat("/").concat(name)
}

/// Posts and records never share a file: two posts of different names lie
/// at different paths, so do their records, and no post lies where a record
/// does.
pub proof fn lemma_paths_apart(one: Seq<char>, other: Seq<char>)
    ensures
        one != other ==> post_path_of(one) != post_path_of(other),
        one != other ==> record_path_of(one) != record_path_of(other),
        post_path_of(one) != record_path_of(other),
{
    reveal_strlit("posts");
    reveal_strlit("metadata");
    reveal_strlit("/");
    assert(post_path_of(one)[0] != record_path_of(other)[0]);
    if one != other {
        assert(post_path_of(one).skip(6) =~= one);
        assert(post_path_of(other).skip(6) =~= other);
        assert(record_path_of(one).skip(9) =~= one);
        assert(record_path_of(other).skip(9) =~= other);
    }
}

} // verus!
