//! Names for new posts.
//!
//! A name starts as six random bytes written in the URL-safe base64 alphabet
//! without padding, eight characters in all. Where that name is taken, an
//! underscore is put behind it, and another, until a free one is found.

use vstd::prelude::*;

verus! {

/// Number of random bytes behind a fresh name.
pub const SEED_LEN: usize = 6;

/// Number of characters of a fresh name.
pub const FRESH_NAME_LEN: usize = 8;

/// The byte at `index`, and zero beyond the end.
pub open spec fn byte_or_zero(bytes: Seq<u8>, index: int) -> int {
    if 0 <= index < bytes.len() {
        bytes[index] as int
    } else {
        0
    }
}

/// The `k`-th group of six bits of `bytes`, read as one string of bits from
/// the most significant bit of the first byte on, with zero bits behind the
/// last byte. Three bytes make four groups.
pub open spec fn sextet(bytes: Seq<u8>, k: int) -> int {
    let first = byte_or_zero(bytes, 3 * (k / 4));
    let second = byte_or_zero(bytes, 3 * (k / 4) + 1);
    let third = byte_or_zero(bytes, 3 * (k / 4) + 2);
    if k % 4 == 0 {
        first / 4
    } else if k % 4 == 1 {
        (first % 4) * 16 + second / 16
    } else if k % 4 == 2 {
        (second % 16) * 4 + third / 64
    } else {
        third % 64
    }
}

/// The character that stands for a six-bit value in the URL-safe alphabet:
/// `A` to `Z`, `a` to `z`, `0` to `9`, `-`, `_`.
pub open spec fn url_safe_symbol(value: int) -> char {
    if value < 26 {
        (65 + value) as char
    } else if value < 52 {
        (97 + (value - 26)) as char
    } else if value < 62 {
        (48 + (value - 52)) as char
    } else if value == 62 {
        '-'
    } else {
        '_'
    }
}

/// Whether `c` belongs to the URL-safe alphabet.
pub open spec fn is_url_safe(c: char) -> bool {
    ||| 'A' <= c <= 'Z'
    ||| 'a' <= c <= 'z'
    ||| '0' <= c <= '9'
    ||| c == '-'
    ||| c == '_'
}

/// Whether `name` is made of characters of the URL-safe alphabet only, so
/// that it can stand in a URL or be a file's name as it is.
pub open spec fn is_url_safe_name(name: Seq<char>) -> bool {
    forall|k: int| 0 <= k < name.len() ==> is_url_safe(#[trigger] name[k])
}

/// Number of characters that `len` bytes take in base64 without padding.
pub open spec fn encoded_len(len: nat) -> nat {
    (4 * len + 2) / 3
}

/// `bytes` in base64 with the URL-safe alphabet and without padding.
pub open spec fn base64_url(bytes: Seq<u8>) -> Seq<char> {
    Seq::new(encoded_len(bytes.len()), |k: int| url_safe_symbol(sextet(bytes, k)))
}

/// `name` is what some six bytes encode to.
pub open spec fn is_fresh_name(name: Seq<char>) -> bool {
    exists|seed: Seq<u8>| seed.len() == SEED_LEN && name == #[trigger] base64_url(seed)
}

/// `base` with `count` underscores behind it.
pub open spec fn padded(base: Seq<char>, count: nat) -> Seq<char> {
    base + Seq::new(count, |i: int| '_')
}

/// `name` is the first of `base`, `base_`, `base__`, ... that is not in
/// `taken`.
pub open spec fn is_first_free(taken: Set<Seq<char>>, base: Seq<char>, name: Seq<char>) -> bool {
    exists|count: nat|
        {
            &&& name == #[trigger] padded(base, count)
            &&& !taken.contains(name)
            &&& forall|fewer: nat|
                fewer < count ==> taken.contains(#[trigger] padded(base, fewer))
        }
}

/// Two names worked out: six zero bytes make `AAAAAAAA`, and the six bytes
/// of `foobar` make `Zm9vYmFy`.
pub proof fn lemma_names_worked_out()
    ensures
        base64_url(seq![0u8, 0u8, 0u8, 0u8, 0u8, 0u8]) == "AAAAAAAA"@,
        base64_url(seq![102u8, 111u8, 111u8, 98u8, 97u8, 114u8]) == "Zm9vYmFy"@,
{
    reveal_strlit("AAAAAAAA");
    reveal_strlit("Zm9vYmFy");
    assert(base64_url(seq![0u8, 0u8, 0u8, 0u8, 0u8, 0u8]) =~= "AAAAAAAA"@);
    assert(base64_url(seq![102u8, 111u8, 111u8, 98u8, 97u8, 114u8]) =~= "Zm9vYmFy"@);
}

/// An encoded text holds characters of the URL-safe alphabet only: no
/// slash, no dot, no comma.
pub proof fn lemma_base64_url_alphabet(bytes: Seq<u8>)
    ensures
        is_url_safe_name(base64_url(bytes)),
{
}

/// A fresh name has eight characters, all of the URL-safe alphabet.
pub proof fn lemma_fresh_name_shape(name: Seq<char>)
    requires
        is_fresh_name(name),
    ensures
        name.len() == FRESH_NAME_LEN,
        is_url_safe_name(name),
{
    let seed = choose|seed: Seq<u8>| seed.len() == SEED_LEN && name == #[trigger] base64_url(seed);
    lemma_base64_url_alphabet(seed);
}

/// Underscores behind a URL-safe name leave it URL-safe.
pub proof fn lemma_padded_is_url_safe(base: Seq<char>, count: nat)
    requires
        is_url_safe_name(base),
    ensures
        is_url_safe_name(padded(base, count)),
{
}

/// One byte from the thread's random number generator, `rand::thread_rng()`,
/// drawn with `Rng::gen`. Trusted, and nothing is claimed of the byte. rand
/// panics where the system has no entropy to seed the generator with.
#[verifier::external_body]
fn random_byte() -> (byte: u8) {
    rand::Rng::gen::<u8>(&mut rand::thread_rng())
}

/// `base64::encode_config` with `base64::URL_SAFE_NO_PAD`, for six bytes.
/// Trusted: the result is the input in base64 with the URL-safe alphabet and
/// no padding, which is what [`base64_url`] spells out.
#[verifier::external_body]
fn encode_url_safe(bytes: &[u8]) -> (text: String)
    requires
        bytes@.len() == SEED_LEN,
    ensures
        text@ == base64_url(bytes@),
{
    base64::encode_config(bytes, base64::URL_SAFE_NO_PAD)
}

/// The name that the six bytes `seed` stand for.
pub fn name_from_seed(seed: &[u8; SEED_LEN]) -> (name: String)
    ensures
        name@ == base64_url(seed@),
        is_fresh_name(name@),
{
    encode_url_safe(seed.as_slice())
}

/// A fresh name from six random bytes.
pub fn generate_random_name() -> (name: String)
    ensures
        is_fresh_name(name@),
        name@.len() == FRESH_NAME_LEN,
        is_url_safe_name(name@),
{
    let seed: [u8; SEED_LEN] = [
        random_byte(),
        random_byte(),
        random_byte(),
        random_byte(),
        random_byte(),
        random_byte(),
    ];
    let name = name_from_seed(&seed);
    proof {
        lemma_fresh_name_shape(name@);
    }
    name
}

/// The name to try after `candidate` has been found taken.
pub fn next_candidate(candidate: String) -> (next: String)
    ensures
        next@ == candidate@.push('_'),
{
    proof {
        reveal_strlit("_");
    }
    let next = candidate.concat("_");
    next
}

/// One more underscore behind a padded name is the next padded name.
pub proof fn lemma_padded_step(base: Seq<char>, count: nat)
    ensures
        padded(base, count).push('_') == padded(base, count + 1),
        padded(base, 0) == base,
        padded(base, count).len() == base.len() + count,
{
}

} // verus!
