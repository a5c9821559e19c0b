use paste_store::ingest::{ingest_stream, Ingest, IoError, ReadEvent, PREAMBLE_LEN};
use paste_store::metadata::PostMetadata;

fn body_of(payload: &[u8]) -> Vec<u8> {
    let mut body = b"content=".to_vec();
    body.extend_from_slice(payload);
    body
}

fn run_chunks(chunks: &[&[u8]]) -> (Vec<u8>, PostMetadata) {
    let mut ingest = Ingest::begin_at(String::from("127.0.0.1:4000"), String::from("noon"));
    let mut kept = Vec::new();
    for chunk in chunks {
        kept.extend_from_slice(ingest.payload(chunk));
        ingest.advance(chunk);
    }
    (kept, ingest.finish())
}

#[test]
fn preamble_has_eight_bytes() {
    assert_eq!(PREAMBLE_LEN, 8);
    assert_eq!(b"content=".len(), PREAMBLE_LEN);
}

#[test]
fn single_chunk_loses_its_first_eight_bytes() {
    let body = body_of(b"hello world");
    let (kept, meta) = run_chunks(&[&body]);
    assert_eq!(kept, b"hello world");
    assert_eq!(meta.size, 11);
    assert_eq!(meta.created_at, "noon");
    assert_eq!(meta.origin, "127.0.0.1:4000");
}

#[test]
fn later_chunks_are_kept_whole() {
    let (kept, meta) = run_chunks(&[b"content=abc", b"content=", b"xyz"]);
    assert_eq!(kept, b"abccontent=xyz");
    assert_eq!(meta.size, 14);
}

#[test]
fn preamble_split_over_chunks_is_still_dropped() {
    let (kept, meta) = run_chunks(&[b"con", b"tent", b"=payload"]);
    assert_eq!(kept, b"payload");
    assert_eq!(meta.size, 7);
    let (kept, meta) = run_chunks(&[b"c", b"o", b"n", b"t", b"e", b"n", b"t", b"=", b"p"]);
    assert_eq!(kept, b"p");
    assert_eq!(meta.size, 1);
}

#[test]
fn every_way_of_cutting_a_body_in_two_keeps_the_same() {
    let body = body_of(b"The quick brown fox");
    for cut in 0..=body.len() {
        let (kept, meta) = run_chunks(&[&body[..cut], &body[cut..]]);
        assert_eq!(kept, b"The quick brown fox");
        assert_eq!(meta.size, 19);
    }
}

#[test]
fn body_of_exactly_the_preamble_keeps_nothing() {
    let (kept, meta) = run_chunks(&[b"content="]);
    assert!(kept.is_empty());
    assert_eq!(meta.size, 0);
}

#[test]
fn body_shorter_than_the_preamble_keeps_nothing() {
    let (kept, meta) = run_chunks(&[b"cont"]);
    assert!(kept.is_empty());
    assert_eq!(meta.size, 0);
    let (kept, meta) = run_chunks(&[]);
    assert!(kept.is_empty());
    assert_eq!(meta.size, 0);
}

#[test]
fn the_preamble_is_not_looked_at() {
    let (kept, _) = run_chunks(&[b"12345678rest"]);
    assert_eq!(kept, b"rest");
}

#[test]
fn payload_does_not_move_the_upload() {
    let mut ingest = Ingest::begin_at(String::new(), String::new());
    assert_eq!(ingest.payload(b"content=abc"), b"abc");
    assert_eq!(ingest.payload(b"content=abc"), b"abc");
    assert_eq!(ingest.bytes_written(), 0);
    ingest.advance(b"content=abc");
    assert_eq!(ingest.bytes_written(), 3);
    assert_eq!(ingest.payload(b"content=abc"), b"content=abc");
}

#[test]
fn begin_stamps_the_upload_itself() {
    let meta = Ingest::begin(String::from("10.1.2.3:80")).finish();
    assert_eq!(meta.size, 0);
    assert_eq!(meta.origin, "10.1.2.3:80");
    assert!(!meta.created_at.is_empty());
}

#[test]
fn stream_in_order_gives_payload_and_record() {
    let input = vec![
        ReadEvent::Data(b"conte".to_vec()),
        ReadEvent::Data(b"nt=Hel".to_vec()),
        ReadEvent::Data(b"lo".to_vec()),
        ReadEvent::Data(Vec::new()),
    ];
    let intake = ingest_stream(&input, String::from("[::1]:9"), String::from("t0"));
    assert_eq!(intake.kept, b"Hello");
    assert_eq!(
        intake.outcome,
        Ok(PostMetadata { size: 5, created_at: String::from("t0"), origin: String::from("[::1]:9") })
    );
}

#[test]
fn stream_without_a_closing_read_ends_at_its_last_read() {
    let input = vec![ReadEvent::Data(b"content=abc".to_vec())];
    let intake = ingest_stream(&input, String::from("o"), String::from("t"));
    assert_eq!(intake.kept, b"abc");
    assert_eq!(intake.outcome.map(|meta| meta.size), Ok(3));
}

#[test]
fn nothing_is_read_behind_the_end_of_the_stream() {
    let input = vec![
        ReadEvent::Data(b"content=abc".to_vec()),
        ReadEvent::Data(Vec::new()),
        ReadEvent::Data(b"more".to_vec()),
        ReadEvent::Failed(String::from("late")),
    ];
    let intake = ingest_stream(&input, String::from("o"), String::from("t"));
    assert_eq!(intake.kept, b"abc");
    assert_eq!(intake.outcome.map(|meta| meta.size), Ok(3));
}

#[test]
fn failed_read_keeps_what_came_before_and_gives_no_record() {
    let input = vec![
        ReadEvent::Data(b"content=par".to_vec()),
        ReadEvent::Data(b"tial".to_vec()),
        ReadEvent::Failed(String::from("connection reset by peer")),
        ReadEvent::Data(b"never seen".to_vec()),
    ];
    let intake = ingest_stream(&input, String::from("o"), String::from("t"));
    assert_eq!(intake.kept, b"partial");
    assert_eq!(intake.outcome, Err(IoError::Failed(String::from("connection reset by peer"))));
}

#[test]
fn empty_stream_gives_an_empty_post() {
    let intake = ingest_stream(&Vec::new(), String::from("o"), String::from("t"));
    assert!(intake.kept.is_empty());
    assert_eq!(intake.outcome.map(|meta| meta.size), Ok(0));
}

#[test]
fn errors_describe_themselves() {
    assert_eq!(IoError::Failed(String::from("broken pipe")).description(), "broken pipe");
    assert_eq!(IoError::AlreadyExists.description(), "a post of that name exists already");
}
