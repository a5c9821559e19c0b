use paste_store::listing::{list_posts, show_row, showtable};
use paste_store::metadata::PostMeta;

fn some(text: &str) -> Option<String> {
    Some(String::from(text))
}

const HEAD: &str =
    "<html><body><table><tr><th></th><th>size</th><th>timestamp</th><th>origin</th></tr>";
const FOOT: &str = "</table></body></html>";

#[test]
fn unreadable_directory_gives_no_listing() {
    assert_eq!(list_posts(None), None);
}

#[test]
fn empty_directory_gives_an_empty_listing() {
    assert_eq!(list_posts(Some(&Vec::new())), Some(Vec::new()));
}

#[test]
fn every_entry_is_listed_with_its_record_read() {
    let directory = vec![
        (String::from("AAAAAAAA"), some("5,yesterday,127.0.0.1:9")),
        (String::from("norecord"), None),
        (String::from("short"), some("17")),
    ];
    assert_eq!(
        list_posts(Some(&directory)),
        Some(vec![
            (
                String::from("AAAAAAAA"),
                PostMeta { size: some("5"), created_at: some("yesterday"), origin: some("127.0.0.1:9") }
            ),
            (String::from("norecord"), PostMeta { size: None, created_at: None, origin: None }),
            (String::from("short"), PostMeta { size: some("17"), created_at: None, origin: None }),
        ])
    );
}

#[test]
fn lost_record_blanks_one_entry_only() {
    let mut directory = vec![
        (String::from("a"), some("1,t1,o1")),
        (String::from("b"), some("2,t2,o2")),
        (String::from("c"), some("3,t3,o3")),
    ];
    let before = list_posts(Some(&directory)).unwrap();
    directory[1].1 = None;
    let after = list_posts(Some(&directory)).unwrap();
    assert_eq!(after.len(), 3);
    assert_eq!(after[0], before[0]);
    assert_eq!(after[1], (String::from("b"), PostMeta::unknown()));
    assert_eq!(after[2], before[2]);
}

#[test]
fn row_of_a_described_post() {
    let meta = PostMeta { size: some("2050"), created_at: some("noon"), origin: some("[::1]:80") };
    assert_eq!(
        show_row("AAAAAAAA", &meta),
        "<tr><td><a href=AAAAAAAA><tt>AAAAAAAA</tt></a></td><td align=\"right\">2050bytes</td>\
         <td align=\"center\">noon</td><td align=\"center\">[::1]:80</td></tr>"
    );
}

#[test]
fn row_of_an_undescribed_post() {
    assert_eq!(
        show_row("x_", &PostMeta::unknown()),
        "<tr><td><a href=x_><tt>x_</tt></a></td><td align=\"right\">?bytes</td>\
         <td align=\"center\">?</td><td align=\"center\">unknown</td></tr>"
    );
}

#[test]
fn row_with_some_fields_unknown() {
    let meta = PostMeta { size: some("1"), created_at: None, origin: None };
    assert_eq!(
        show_row("n", &meta),
        "<tr><td><a href=n><tt>n</tt></a></td><td align=\"right\">1bytes</td>\
         <td align=\"center\">?</td><td align=\"center\">unknown</td></tr>"
    );
}

#[test]
fn page_without_a_listing_has_no_rows() {
    assert_eq!(showtable(None), format!("{}{}", HEAD, FOOT));
}

#[test]
fn page_of_an_empty_listing_has_no_rows() {
    assert_eq!(showtable(Some(&Vec::new())), format!("{}{}", HEAD, FOOT));
}

#[test]
fn page_has_one_row_for_each_post_in_order() {
    let listing = vec![
        (
            String::from("first"),
            PostMeta { size: some("1"), created_at: some("t1"), origin: some("o1") },
        ),
        (String::from("second"), PostMeta::unknown()),
    ];
    let expected = format!(
        "{}{}{}{}",
        HEAD,
        show_row("first", &listing[0].1),
        show_row("second", &listing[1].1),
        FOOT
    );
    assert_eq!(showtable(Some(&listing)), expected);
    assert_eq!(
        showtable(Some(&listing)),
        "<html><body><table><tr><th></th><th>size</th><th>timestamp</th><th>origin</th></tr>\
         <tr><td><a href=first><tt>first</tt></a></td><td align=\"right\">1bytes</td>\
         <td align=\"center\">t1</td><td align=\"center\">o1</td></tr>\
         <tr><td><a href=second><tt>second</tt></a></td><td align=\"right\">?bytes</td>\
         <td align=\"center\">?</td><td align=\"center\">unknown</td></tr>\
         </table></body></html>"
    );
}
