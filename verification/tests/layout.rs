use paste_store::layout::{post_path, record_path};

#[test]
fn posts_lie_under_posts() {
    assert_eq!(post_path("AAAAAAAA"), "posts/AAAAAAAA");
    assert_eq!(post_path("AAAAAAAA_"), "posts/AAAAAAAA_");
    assert_eq!(post_path(""), "posts/");
}

#[test]
fn records_lie_under_metadata() {
    assert_eq!(record_path("AAAAAAAA"), "metadata/AAAAAAAA");
    assert_eq!(record_path("x-_9"), "metadata/x-_9");
}

#[test]
fn directories_are_posts_and_metadata() {
    assert_eq!(paste_store::layout::POSTS_DIR, "posts");
    assert_eq!(paste_store::layout::METADATA_DIR, "metadata");
}
