//! The page of a single post shows the beginning of it as text, made safe
//! to stand inside HTML.

use vstd::prelude::*;
use vstd::utf8::{decode_utf8, encode_utf8, valid_utf8};

verus! {

/// Number of bytes of a post that its page shows at most.
pub const PREVIEW_LEN: usize = 2048;

/// The part of a post that its page shows: its first [`PREVIEW_LEN`] bytes,
/// or all of it if it has no more.
pub open spec fn preview_of(bytes: Seq<u8>) -> Seq<u8> {
    if bytes.len() <= PREVIEW_LEN {
        bytes
    } else {
        bytes.take(PREVIEW_LEN as int)
    }
}

/// The text that bytes stand for: their reading as UTF-8, and no text at
/// all where they are not UTF-8 from beginning to end.
pub open spec fn text_in(bytes: Seq<u8>) -> Seq<char> {
    if valid_utf8(bytes) {
        decode_utf8(bytes)
    } else {
        Seq::empty()
    }
}

/// What stands for a character inside HTML: an entity for each of the five
/// characters `"`, `&`, `'`, `<`, `>`, and the character itself for any other.
pub open spec fn entity(c: char) -> Seq<char> {
    if c == '"' {
        "&quot;"@
    } else if c == '&' {
        "&amp;"@
    } else if c == '\'' {
        "&#x27;"@
    } else if c == '<' {
        "&lt;"@
    } else if c == '>' {
        "&gt;"@
    } else {
        seq![c]
    }
}

/// A text with every character replaced by what stands for it inside HTML.
pub open spec fn escaped(text: Seq<char>) -> Seq<char>
    decreases text.len(),
{
    if text.len() == 0 {
        Seq::empty()
    } else {
        escaped(text.drop_last()) + entity(text.last())
    }
}

/// `std::str::from_utf8`, with its error dropped. Trusted: the bytes are
/// accepted exactly if they are valid UTF-8, and the text that comes back is
/// the one that they encode.
#[verifier::external_body]
fn utf8_text(bytes: &[u8]) -> (text: Option<&str>)
    ensures
        text is Some <==> valid_utf8(bytes@),
        text matches Some(found) ==> encode_utf8(found@) == bytes@,
{
    std::str::from_utf8(bytes).ok()
}

/// `htmlescape::encode_minimal`. Trusted: the result is the input with each
/// of `"`, `&`, `'`, `<`, `>` replaced by its entity and every other character
/// left as it is, which is what [`escaped`] says. The crate sizes its buffer
/// as a third of the input's length in bytes, plus one, times four; inputs for
/// which that does not fit in `usize` are left out.
#[verifier::external_body]
fn escape_minimal(text: &str) -> (safe: String)
    requires
        (encode_utf8(text@).len() / 3 + 1) * 4 <= usize::MAX,
    ensures
        safe@ == escaped(text@),
{
    htmlescape::encode_minimal(text)
}

/// The part of a post that its page shows.
pub fn preview(bytes: &[u8]) -> (head: &[u8])
    ensures
        head@ == preview_of(bytes@),
{
    if bytes.len() <= PREVIEW_LEN {
        bytes
    } else {
        vstd::slice::slice_subrange(bytes, 0, PREVIEW_LEN)
    }
}

/// The body of the page of a post whose bytes are `bytes`: the text of its
/// preview, escaped. A preview that is not UTF-8 as it stands gives an empty
/// body, also where only the cut at [`PREVIEW_LEN`] bytes has split a
/// character.
pub fn show_body(bytes: &[u8]) -> (body: String)
    ensures
        body@ == escaped(text_in(preview_of(bytes@))),
{
    let head = preview(bytes);
    match utf8_text(head) {
        Some(text) => {
            proof {
                vstd::utf8::encode_utf8_decode_utf8(text@);
            }
            escape_minimal(text)
        },
        None => String::new(),
    }
}

} // verus!
