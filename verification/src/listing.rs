//! The listing of all posts, and the page that shows it.

use vstd::prelude::*;
use crate::metadata::{describe, describe_post, text_of, PostMeta, PostMetaView};

verus! {

/// The names and readings of a listing as plain values.
pub open spec fn listed(entries: Seq<(String, PostMeta)>) -> Seq<(Seq<char>, PostMetaView)> {
    Seq::new(entries.len(), |i: int| (entries[i].0@, entries[i].1@))
}

/// What a reading of the posts directory is turned into: every entry in
/// turn, by name, with what its record says of it.
pub open spec fn described(entries: Seq<(String, Option<String>)>) -> Seq<
    (Seq<char>, PostMetaView),
> {
    Seq::new(entries.len(), |i: int| (entries[i].0@, describe(text_of(entries[i].1))))
}

/// Turns a reading of the posts directory into a listing. `directory` holds,
/// for every entry in the order in which the directory gave them, its name and
/// the text of its record, or `None` where the record is missing or cannot be
/// read; it is `None` as a whole where the directory itself could not be read.
/// An entry without a record is listed all the same, with every field unknown;
/// only an unreadable directory leaves no listing.
pub fn list_posts(directory: Option<&Vec<(String, Option<String>)>>) -> (listing: Option<
    Vec<(String, PostMeta)>,
>)
    ensures
        directory is None <==> listing is None,
        directory matches Some(entries) ==> listed(listing->0@) == described(entries@),
{
    match directory {
        None => None,
        Some(entries) => {
            let mut listing: Vec<(String, PostMeta)> = Vec::new();
            let mut at: usize = 0;
            while at < entries.len()
                invariant
                    0 <= at <= entries@.len(),
                    listing@.len() == at,
                    forall|k: int|
                        0 <= k < at ==> (#[trigger] listing@[k]).0@ == entries@[k].0@
                            && listing@[k].1@ == describe(text_of(entries@[k].1)),
                decreases entries@.len() - at,
            {
                let entry = &entries[at];
                let meta = match &entry.1 {
                    Some(text) => describe_post(Some(text.as_str())),
                    None => describe_post(None),
                };
                listing.push((entry.0.clone(), meta));
                at = at + 1;
            }
            Some(listing)
        },
    }
}

/// What is shown for a field: its text, or `fallback` where it is unknown.
pub open spec fn shown(field: Option<Seq<char>>, fallback: Seq<char>) -> Seq<char> {
    match field {
        Some(text) => text,
        None => fallback,
    }
}

/// The row of the table for one post: its name as a link, its size with
/// `?` for an unknown one, its time with `?`, its origin with `unknown`.
/// Nothing is escaped.
pub open spec fn table_row(name: Seq<char>, meta: PostMetaView) -> Seq<char> {
    "<tr><td><a href="@ + name + "><tt>"@ + name + "</tt></a></td><td align=\"right\">"@ + shown(
        meta.size,
        "?"@,
    ) + "bytes</td><td align=\"center\">"@ + shown(meta.created_at, "?"@)
        + "</td><td align=\"center\">"@ + shown(meta.origin, "unknown"@) + "</td></tr>"@
}

/// The rows for a listing, one after the other.
pub open spec fn table_rows(listing: Seq<(Seq<char>, PostMetaView)>) -> Seq<char>
    decreases listing.len(),
{
    if listing.len() == 0 {
        Seq::empty()
    } else {
        table_rows(listing.drop_last()) + table_row(listing.last().0, listing.last().1)
    }
}

/// The page that shows a listing: the head of the table, a row for every
/// post, the foot. Where there is no listing the table has no rows.
pub open spec fn table_page(listing: Option<Seq<(Seq<char>, PostMetaView)>>) -> Seq<char> {
    "<html><body><table><tr><th></th><th>size</th><th>timestamp</th><th>origin</th></tr>"@ + (
    match listing {
        Some(rows) => table_rows(rows),
        None => Seq::empty(),
    }) + "</table></body></html>"@
}

/// The text of a field, or `fallback` where it is unknown.
fn field_or<'a>(field: &'a Option<String>, fallback: &'a str) -> (text: &'a str)
    ensures
        text@ == shown(text_of(*field), fallback@),
{
    match field {
        Some(text) => text.as_str(),
        None => fallback,
    }
}

/// Writes the row of the table for one post.
pub fn show_row(name: &str, meta: &PostMeta) -> (row: String)
    ensures
        row@ == table_row(name@, meta@),
{
    let mut row = String::from_str("<tr><td><a href=");
    row.append(name);
    row.append("><tt>");
    row.append(name);
    row.append("</tt></a></td><td align=\"right\">");
    row.append(field_or(&meta.size, "?"));
    row.append("bytes</td><td align=\"center\">");
    row.append(field_or(&meta.created_at, "?"));
    row.append("</td><td align=\"center\">");
    row.append(field_or(&meta.origin, "unknown"));
    row.append("</td></tr>");
    row
}

/// Writes the page that shows `listing`.
pub fn showtable(listing: Option<&Vec<(String, PostMeta)>>) -> (page: String)
    ensures
        page@ == table_page(
            match listing {
                Some(entries) => Some(listed(entries@)),
                None => None,
            },
        ),
{
    let mut rows = String::new();
    match listing {
        Some(entries) => {
            let mut at: usize = 0;
            while at < entries.len()
                invariant
                    0 <= at <= entries@.len(),
                    rows@ == table_rows(listed(entries@).take(at as int)),
                decreases entries@.len() - at,
            {
                let entry = &entries[at];
                let row = show_row(entry.0.as_str(), &entry.1);
                rows.append(row.as_str());
                proof {
                    let grown = listed(entries@).take(at + 1);
                    assert(grown.drop_last() =~= listed(entries@).take(at as int));
                }
                at = at + 1;
            }
            assert(listed(entries@).take(at as int) =~= listed(entries@));
        },
        None => {},
    }
    let mut page = String::from_str(
        "<html><body><table><tr><th></th><th>size</th><th>timestamp</th><th>origin</th></tr>",
    );
    page.append(rows.as_str());
    page.append("</table></body></html>");
    page
}

} // verus!
