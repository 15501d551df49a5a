//! Hex text, hashing and randomness: the byte-level utilities of the library.
use vstd::prelude::*;
use rand::RngCore;
use sha2::Digest;
use crate::error::Error;
use vstd::string::*;

verus! {

/// The lowercase hex digits, indexed by their value.
pub open spec fn hex_alphabet() -> Seq<char> {
    seq!['0', '1', '2', '3', '4', '5', '6', '7', '8', '9', 'a', 'b', 'c', 'd', 'e', 'f']
}

/// Lowercase hex of `b`, two digits per byte, high nibble first.
pub open spec fn hex_digits(b: Seq<u8>) -> Seq<char> {
    Seq::new(
        2 * b.len(),
        |i: int|
            if i % 2 == 0 {
                hex_alphabet()[b[i / 2] as int / 16]
            } else {
                hex_alphabet()[b[i / 2] as int % 16]
            },
    )
}

/// Hex text as this library emits it: `0x` and lowercase digits.
pub open spec fn hex_text(b: Seq<u8>) -> Seq<char> {
    seq!['0', 'x'] + hex_digits(b)
}

/// Whether `c` is a hex digit of either case.
pub open spec fn is_hex_char(c: char) -> bool {
    ('0' <= c && c <= '9') || ('a' <= c && c <= 'f') || ('A' <= c && c <= 'F')
}

/// The value of a hex digit.
pub open spec fn hex_value(c: char) -> int {
    if '0' <= c && c <= '9' {
        c as int - '0' as int
    } else if 'a' <= c && c <= 'f' {
        c as int - 'a' as int + 10
    } else {
        c as int - 'A' as int + 10
    }
}

/// Whether `t` is an even number of hex digits.
pub open spec fn is_hex_body(t: Seq<char>) -> bool {
    t.len() % 2 == 0 && forall|i: int| 0 <= i < t.len() ==> is_hex_char(#[trigger] t[i])
}

/// The bytes that an even run of hex digits spells.
pub open spec fn hex_body_bytes(t: Seq<char>) -> Seq<u8> {
    Seq::new(t.len() / 2, |i: int| (16 * hex_value(t[2 * i]) + hex_value(t[2 * i + 1])) as u8)
}

/// `s` without a leading `0x`, if it has one.
pub open spec fn strip_hex_prefix(s: Seq<char>) -> Seq<char> {
    if s.len() >= 2 && s[0] == '0' && s[1] == 'x' {
        s.subrange(2, s.len() as int)
    } else {
        s
    }
}

/// The bytes that hex text spells, with or without `0x`; `None` if it is malformed.
pub open spec fn parse_hex(s: Seq<char>) -> Option<Seq<u8>> {
    let t = strip_hex_prefix(s);
    if is_hex_body(t) {
        Some(hex_body_bytes(t))
    } else {
        None
    }
}

/// SHA-256 digest of a byte string.
pub uninterp spec fn sha256_of(data: Seq<u8>) -> [u8; 32];

/// Relies on hex::encode: lowercase hex, two digits per byte.
#[verifier::external_body]
pub(crate) fn hex_encode(data: &[u8]) -> (r: String)
    ensures
        r@ == hex_digits(data@),
{
    hex::encode(data)
}

/// Relies on hex::decode: accepts an even number of hex digits of either case.
#[verifier::external_body]
fn hex_decode(text: &str) -> (r: Option<Vec<u8>>)
    ensures
        r is Some <==> is_hex_body(text@),
        r matches Some(v) ==> v@ == hex_body_bytes(text@),
{
    hex::decode(text).ok()
}

/// Relies on sha2::Sha256: the 32-byte digest of `data`.
#[verifier::external_body]
pub(crate) fn sha256(data: &[u8]) -> (r: [u8; 32])
    ensures
        r == sha256_of(data@),
{
    sha2::Sha256::digest(data).into()
}

/// Relies on rand::thread_rng, a cryptographically secure generator: `len` random bytes.
#[verifier::external_body]
pub(crate) fn random_bytes(len: usize) -> (r: Vec<u8>)
    ensures
        r@.len() == len,
{
    let mut bytes = vec![0u8; len];
    rand::thread_rng().fill_bytes(&mut bytes);
    bytes
}

/// Each lowercase digit is a hex digit and has its index as value.
pub proof fn lemma_hex_alphabet(k: int)
    requires
        0 <= k < 16,
    ensures
        is_hex_char(hex_alphabet()[k]),
        hex_value(hex_alphabet()[k]) == k,
{
    let a = hex_alphabet();
    assert(a[0] == '0' && a[1] == '1' && a[2] == '2' && a[3] == '3');
    assert(a[4] == '4' && a[5] == '5' && a[6] == '6' && a[7] == '7');
    assert(a[8] == '8' && a[9] == '9' && a[10] == 'a' && a[11] == 'b');
    assert(a[12] == 'c' && a[13] == 'd' && a[14] == 'e' && a[15] == 'f');
}

/// Hex text that this library emits parses back to the bytes it was made from.
pub proof fn lemma_hex_round_trip(b: Seq<u8>)
    ensures
        parse_hex(hex_text(b)) == Some(b),
{
    let s = hex_text(b);
    let d = hex_digits(b);
    assert(s[0] == '0' && s[1] == 'x');
    assert(s.subrange(2, s.len() as int) =~= d);
    assert forall|i: int| 0 <= i < d.len() implies is_hex_char(#[trigger] d[i]) by {
        if i % 2 == 0 {
            lemma_hex_alphabet(b[i / 2] as int / 16);
        } else {
            lemma_hex_alphabet(b[i / 2] as int % 16);
        }
    }
    assert forall|i: int| 0 <= i < b.len() implies #[trigger] hex_body_bytes(d)[i] == b[i] by {
        assert((2 * i) / 2 == i && (2 * i + 1) / 2 == i && (2 * i) % 2 == 0 && (2 * i + 1) % 2 == 1)
            by (nonlinear_arith);
        lemma_hex_alphabet(b[i] as int / 16);
        lemma_hex_alphabet(b[i] as int % 16);
    }
    assert(hex_body_bytes(d) =~= b);
}

/// Hex text of `data`: `0x` followed by two lowercase digits per byte.
pub fn bytes_to_hex(data: &[u8]) -> (r: String)
    ensures
        r@ == hex_text(data@),
{
    let mut text = String::from_str("0x");
    proof {
        reveal_strlit("0x");
    }
    let digits = hex_encode(data);
    text.append(digits.as_str());
    assert(text@ =~= hex_text(data@));
    text
}

/// The bytes that hex text spells; a leading `0x` is optional.
pub fn hex_to_bytes(hex_str: &str) -> (r: Result<Vec<u8>, Error>)
    ensures
        match parse_hex(hex_str@) {
            Some(b) => r is Ok && r->Ok_0@ == b,
            None => r == Err::<Vec<u8>, Error>(Error::InvalidHex),
        },
{
    let n = hex_str.unicode_len();
    let body: &str = if n >= 2 && hex_str.get_char(0) == '0' && hex_str.get_char(1) == 'x' {
        hex_str.substring_char(2, n)
    } else {
        hex_str
    };
    assert(body@ == strip_hex_prefix(hex_str@));
    match hex_decode(body) {
        Some(v) => Ok(v),
        None => Err(Error::InvalidHex),
    }
}

/// SHA-256 of `data` as hex text.
pub fn hash_sha256(data: &[u8]) -> (r: String)
    ensures
        r@ == hex_text(sha256_of(data@)@),
{
    let digest = sha256(data);
    bytes_to_hex(&digest)
}

/// `length` fresh random bytes as hex text.
pub fn generate_random_bytes(length: usize) -> (r: String)
    ensures
        exists|b: Seq<u8>| b.len() == length && r@ == hex_text(b),
{
    let bytes = random_bytes(length);
    bytes_to_hex(bytes.as_slice())
}

/// A fresh intent identifier: `sip-` and 32 lowercase hex digits of random bytes.
pub fn generate_intent_id() -> (r: String)
    ensures
        exists|b: Seq<u8>| b.len() == 16 && r@ == seq!['s', 'i', 'p', '-'] + hex_digits(b),
{
    let bytes = random_bytes(16);
    let mut id = String::from_str("sip-");
    proof {
        reveal_strlit("sip-");
    }
    let digits = hex_encode(bytes.as_slice());
    id.append(digits.as_str());
    assert(id@ =~= seq!['s', 'i', 'p', '-'] + hex_digits(bytes@));
    id
}

} // verus!
