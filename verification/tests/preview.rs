use paste_store::preview::{preview, show_body, PREVIEW_LEN};

#[test]
fn preview_limit_is_2048_bytes() {
    assert_eq!(PREVIEW_LEN, 2048);
}

#[test]
fn short_posts_are_previewed_whole() {
    assert_eq!(preview(b""), b"");
    assert_eq!(preview(b"short"), b"short");
    let exact = vec![7u8; 2048];
    assert_eq!(preview(&exact), &exact[..]);
}

#[test]
fn long_posts_are_cut_at_the_limit() {
    let bytes: Vec<u8> = (0..5000u32).map(|i| (i % 251) as u8).collect();
    assert_eq!(preview(&bytes), &bytes[..2048]);
    let one_more = vec![1u8; 2049];
    assert_eq!(preview(&one_more).len(), 2048);
}

#[test]
fn plain_text_is_shown_as_it_is() {
    assert_eq!(show_body(b"plain text, nothing to escape"), "plain text, nothing to escape");
    assert_eq!(show_body(b""), "");
}

#[test]
fn the_five_characters_are_escaped() {
    assert_eq!(show_body(b"<"), "&lt;");
    assert_eq!(show_body(b">"), "&gt;");
    assert_eq!(show_body(b"&"), "&amp;");
    assert_eq!(show_body(b"\""), "&quot;");
    assert_eq!(show_body(b"'"), "&#x27;");
    assert_eq!(
        show_body(b"<a href=\"x\">Tom & 'Jerry'</a>"),
        "&lt;a href=&quot;x&quot;&gt;Tom &amp; &#x27;Jerry&#x27;&lt;/a&gt;"
    );
}

#[test]
fn text_beyond_ascii_is_kept() {
    let text = "gr\u{fc}\u{df}e <\u{65e5}\u{672c}> \u{1f600}";
    assert_eq!(show_body(text.as_bytes()), "gr\u{fc}\u{df}e &lt;\u{65e5}\u{672c}&gt; \u{1f600}");
}

#[test]
fn bytes_that_are_not_text_give_an_empty_body() {
    assert_eq!(show_body(&[0xff, 0xfe, 0x00]), "");
    assert_eq!(show_body(b"fine so far \xc3"), "");
    assert_eq!(show_body(&[b'a', 0x80, b'b']), "");
}

#[test]
fn body_shows_the_preview_only() {
    let mut bytes = vec![b'a'; 2048];
    bytes.extend_from_slice(b"<tail>");
    assert_eq!(show_body(&bytes), "a".repeat(2048));
    let mut early = vec![b'a'; 2047];
    early.extend_from_slice(b"<tail>");
    assert_eq!(show_body(&early), format!("{}&lt;", "a".repeat(2047)));
}

#[test]
fn character_split_by_the_cut_gives_an_empty_body() {
    let mut bytes = vec![b'a'; 2047];
    bytes.extend_from_slice("\u{e9}".as_bytes());
    assert_eq!(bytes.len(), 2049);
    assert_eq!(show_body(&bytes), "");
    let mut whole = vec![b'a'; 2046];
    whole.extend_from_slice("\u{e9}".as_bytes());
    assert_eq!(show_body(&whole), format!("{}\u{e9}", "a".repeat(2046)));
}
