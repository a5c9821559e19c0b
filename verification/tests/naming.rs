use paste_store::naming::{generate_random_name, name_from_seed, next_candidate};

#[test]
fn zero_seed_is_all_a() {
    assert_eq!(name_from_seed(&[0u8; 6]), "AAAAAAAA");
}

#[test]
fn known_encodings_of_six_bytes() {
    assert_eq!(name_from_seed(b"foobar"), "Zm9vYmFy");
    assert_eq!(name_from_seed(b"Hello!"), "SGVsbG8h");
    assert_eq!(name_from_seed(&[0xff; 6]), "________");
    assert_eq!(name_from_seed(&[0xfb, 0xef, 0xbe, 0xfb, 0xef, 0xbe]), "--------");
    assert_eq!(name_from_seed(&[0x00, 0x10, 0x83, 0x10, 0x51, 0x87]), "ABCDEFGH");
    assert_eq!(name_from_seed(&[0xd3, 0x5d, 0xb7, 0xe3, 0x9e, 0xbb]), "01234567");
}

#[test]
fn every_symbol_of_the_alphabet_is_reached() {
    let alphabet = "ABCDEFGHIJKLMNOPQRSTUVWXYZabcdefghijklmnopqrstuvwxyz0123456789-_";
    let symbols: Vec<char> = alphabet.chars().collect();
    let mut value: u32 = 0;
    while value < 64 {
        // Eight times the same six bits, packed into six bytes.
        let mut bits: u64 = 0;
        for _ in 0..8 {
            bits = (bits << 6) | u64::from(value);
        }
        let seed = [
            (bits >> 40) as u8,
            (bits >> 32) as u8,
            (bits >> 24) as u8,
            (bits >> 16) as u8,
            (bits >> 8) as u8,
            bits as u8,
        ];
        let expected: String = std::iter::repeat(symbols[value as usize]).take(8).collect();
        assert_eq!(name_from_seed(&seed), expected);
        value += 1;
    }
}

#[test]
fn encoding_is_not_the_seed_itself() {
    let seed = *b"AAAAAAAA".first_chunk::<6>().unwrap();
    assert_eq!(name_from_seed(&seed), "QUFBQUFB");
}

#[test]
fn random_names_have_eight_url_safe_characters() {
    for _ in 0..200 {
        let name = generate_random_name();
        assert_eq!(name.chars().count(), 8);
        assert!(name.chars().all(|c| c.is_ascii_alphanumeric() || c == '-' || c == '_'));
        assert!(!name.contains('/'));
        assert!(!name.contains(','));
    }
}

#[test]
fn random_names_differ() {
    let first = generate_random_name();
    let mut all_equal = true;
    for _ in 0..50 {
        if generate_random_name() != first {
            all_equal = false;
        }
    }
    assert!(!all_equal);
}

#[test]
fn next_candidate_appends_one_underscore() {
    assert_eq!(next_candidate(String::from("AAAAAAAA")), "AAAAAAAA_");
    assert_eq!(next_candidate(String::from("AAAAAAAA_")), "AAAAAAAA__");
    assert_eq!(next_candidate(String::new()), "_");
}
