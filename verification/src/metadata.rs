//! The record that goes with a post: its size, the time it came in and the
//! address it came from, on one line with commas between them.
//!
//! Nothing in a field is escaped. A comma inside the time or the address
//! shifts what a reader takes for the later fields; the format has no cure
//! for that and this module adds none.

use vstd::prelude::*;
use vstd::std_specs::iter::IteratorSpec;
use crate::decimal::{decimal, lemma_decimal_digits, to_decimal};

verus! {

/// What a finished upload is recorded with.
#[derive(Debug, PartialEq, Eq)]
pub struct PostMetadata {
    /// Number of bytes that were kept.
    pub size: u64,
    /// When the upload began, as text.
    pub created_at: String,
    /// The address of the client that sent it.
    pub origin: String,
}

/// What a reader finds in a record. A field that is not there is `None`.
#[derive(Debug, PartialEq, Eq)]
pub struct PostMeta {
    /// The size of the post, as the record has it.
    pub size: Option<String>,
    /// The time at which the upload began.
    pub created_at: Option<String>,
    /// The address that the upload came from.
    pub origin: Option<String>,
}

/// A [`PostMeta`] as plain text.
pub struct PostMetaView {
    pub size: Option<Seq<char>>,
    pub created_at: Option<Seq<char>>,
    pub origin: Option<Seq<char>>,
}

/// The text of an optional string.
pub open spec fn text_of(field: Option<String>) -> Option<Seq<char>> {
    match field {
        Some(text) => Some(text@),
        None => None,
    }
}

impl View for PostMeta {
    type V = PostMetaView;

    open spec fn view(&self) -> PostMetaView {
        PostMetaView {
            size: text_of(self.size),
            created_at: text_of(self.created_at),
            origin: text_of(self.origin),
        }
    }
}

/// Whether `text` is free of commas.
pub open spec fn has_no_comma(text: Seq<char>) -> bool {
    forall|k: int| 0 <= k < text.len() ==> text[k] != ','
}

/// The position of the first comma of `text` at or behind `from`, and the
/// length of `text` if there is none.
pub open spec fn next_comma(text: Seq<char>, from: int) -> int
    decreases text.len() - from,
{
    if from >= text.len() {
        text.len() as int
    } else if text[from] == ',' {
        from
    } else {
        next_comma(text, from + 1)
    }
}

/// The fields of `text`: what stands between its commas, before the first
/// and behind the last. A text without a comma is one field, the empty text
/// too.
pub open spec fn fields(text: Seq<char>) -> Seq<Seq<char>>
    decreases text.len(),
{
    let end = next_comma(text, 0);
    if 0 <= end < text.len() {
        seq![text.take(end)] + fields(text.skip(end + 1))
    } else {
        seq![text]
    }
}

/// The `index`-th field of `text`, if it has that many.
pub open spec fn field(text: Seq<char>, index: int) -> Option<Seq<char>> {
    if 0 <= index < fields(text).len() {
        Some(fields(text)[index])
    } else {
        None
    }
}

/// The record of a post of `size` bytes that came in at `created_at` from
/// `origin`.
pub open spec fn record_text(size: nat, created_at: Seq<char>, origin: Seq<char>) -> Seq<char> {
    decimal(size) + seq![','] + created_at + seq![','] + origin
}

/// What a reader makes of the text of a record, and of its absence: with no
/// record every field is unknown; else the first three fields are the size,
/// the time and the address, each as far as the text has it.
pub open spec fn describe(record: Option<Seq<char>>) -> PostMetaView {
    match record {
        None => PostMetaView { size: None, created_at: None, origin: None },
        Some(text) => PostMetaView {
            size: field(text, 0),
            created_at: field(text, 1),
            origin: field(text, 2),
        },
    }
}

/// The next comma is at `at` if that is the first place from `from` on that
/// holds one, or the end of a text that holds none.
pub proof fn lemma_next_comma_is(text: Seq<char>, from: int, at: int)
    requires
        0 <= from <= at <= text.len(),
        forall|k: int| from <= k < at ==> text[k] != ',',
        at < text.len() ==> text[at] == ',',
    ensures
        next_comma(text, from) == at,
    decreases at - from,
{
    if from < at {
        lemma_next_comma_is(text, from + 1, at);
    }
}

/// A text always has a first field.
pub proof fn lemma_fields_nonempty(text: Seq<char>)
    ensures
        fields(text).len() >= 1,
{
}

/// A text in front of a comma is the first field of the whole, if it holds
/// no comma itself; the fields of what follows the comma come after it.
pub proof fn lemma_fields_of_joined(head: Seq<char>, tail: Seq<char>)
    requires
        has_no_comma(head),
    ensures
        fields(head + seq![','] + tail) == seq![head] + fields(tail),
{
    let text = head + seq![','] + tail;
    lemma_next_comma_is(text, 0, head.len() as int);
    assert(text.take(head.len() as int) =~= head);
    assert(text.skip(head.len() as int + 1) =~= tail);
}

/// A text without a comma is its own single field.
pub proof fn lemma_fields_of_plain(text: Seq<char>)
    requires
        has_no_comma(text),
    ensures
        fields(text) == seq![text],
{
    lemma_next_comma_is(text, 0, text.len() as int);
}

/// A record is read back as it was written, provided that neither the time
/// nor the address holds a comma.
pub proof fn lemma_record_reads_back(size: nat, created_at: Seq<char>, origin: Seq<char>)
    requires
        has_no_comma(created_at),
        has_no_comma(origin),
    ensures
        describe(Some(record_text(size, created_at, origin))) == (PostMetaView {
            size: Some(decimal(size)),
            created_at: Some(created_at),
            origin: Some(origin),
        }),
{
    let text = record_text(size, created_at, origin);
    lemma_decimal_digits(size);
    let tail = created_at + seq![','] + origin;
    assert(text =~= decimal(size) + seq![','] + tail);
    lemma_fields_of_joined(decimal(size), tail);
    lemma_fields_of_joined(created_at, origin);
    lemma_fields_of_plain(origin);
}

/// The texts of a run of strings.
pub open spec fn texts(strings: Seq<String>) -> Seq<Seq<char>> {
    Seq::new(strings.len(), |i: int| strings[i]@)
}

/// The text of an optional string slice.
pub open spec fn text_of_str(record: Option<&str>) -> Option<Seq<char>> {
    match record {
        Some(text) => Some(text@),
        None => None,
    }
}

/// The first `limit` fields of `text`, or all of them if it has fewer.
pub fn leading_fields(text: &str, limit: usize) -> (found: Vec<String>)
    ensures
        found@.len() == if limit < fields(text@).len() {
            limit as nat
        } else {
            fields(text@).len()
        },
        texts(found@) == fields(text@).take(found@.len() as int),
{
    broadcast use vstd::string::group_string_axioms;

    let len: usize = text.unicode_len();
    let mut chars = text.chars();
    let mut found: Vec<String> = Vec::new();
    let mut index: usize = 0;
    let mut start: usize = 0;
    let mut done = false;
    assert(text@.skip(0) =~= text@);
    while !done && found.len() < limit
        invariant
            len == text@.len(),
            start <= index <= len,
            found@.len() <= limit,
            chars.obeys_prophetic_iter_laws(),
            chars.remaining() == text@.skip(index as int),
            forall|k: int| start <= k < index ==> text@[k] != ',',
            !done ==> fields(text@) == texts(found@) + fields(text@.skip(start as int)),
            done ==> fields(text@) == texts(found@),
        decreases (len - index) + (if done { 0int } else { 1int }),
    {
        let ghost rest = text@.skip(start as int);
        match chars.next() {
            Some(c) => {
                if c == ',' {
                    let piece = String::from_str(text.substring_char(start, index));
                    proof {
                        lemma_next_comma_is(rest, 0, index - start);
                        assert(rest.take(index - start) =~= piece@);
                        assert(rest.skip(index - start + 1) =~= text@.skip(index + 1));
                    }
                    found.push(piece);
                    start = index + 1;
                }
                index = index + 1;
            },
            None => {
                let piece = String::from_str(text.substring_char(start, len));
                proof {
                    lemma_next_comma_is(rest, 0, len - start);
                }
                found.push(piece);
                done = true;
            },
        }
    }
    proof {
        lemma_fields_nonempty(text@.skip(start as int));
    }
    found
}

impl PostMeta {
    /// What is known of a post that has no record.
    pub fn unknown() -> (meta: PostMeta)
        ensures
            meta@ == describe(None),
    {
        PostMeta { size: None, created_at: None, origin: None }
    }
}

/// Reads the record of a post. `record` is the text of the record, or `None`
/// where there is none or it could not be read.
pub fn describe_post(record: Option<&str>) -> (meta: PostMeta)
    ensures
        meta@ == describe(text_of_str(record)),
{
    match record {
        None => PostMeta::unknown(),
        Some(text) => {
            let mut found = leading_fields(text, 3);
            let ghost all = texts(found@);
            proof {
                lemma_fields_nonempty(text@);
            }
            let origin = if found.len() == 3 {
                found.pop()
            } else {
                None
            };
            let created_at = if found.len() == 2 {
                found.pop()
            } else {
                None
            };
            let size = found.pop();
            let meta = PostMeta { size, created_at, origin };
            assert(meta.size is Some && meta.size->0@ == all[0]);
            assert(all.len() >= 2 ==> meta.created_at is Some && meta.created_at->0@ == all[1]);
            assert(all.len() >= 3 ==> meta.origin is Some && meta.origin->0@ == all[2]);
            meta
        },
    }
}

impl PostMetadata {
    /// The text of the record.
    pub open spec fn record(&self) -> Seq<char> {
        record_text(self.size as nat, self.created_at@, self.origin@)
    }

    /// Writes the record: the size in decimal, the time, the address, with a
    /// comma after the first and after the second.
    pub fn to_record(&self) -> (text: String)
        ensures
            text@ == self.record(),
    {
        proof {
            reveal_strlit(",");
        }
        let mut text = to_decimal(self.size);
        text.append(",");
        text.append(self.created_at.as_str());
        text.append(",");
        text.append(self.origin.as_str());
        text
    }
}

} // verus!
