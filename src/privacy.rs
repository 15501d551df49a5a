//! Viewing keys and the authenticated encryption that discloses transfer details
//! to their holders (XChaCha20-Poly1305, 32-byte keys, 24-byte nonces).
use vstd::prelude::*;
use chacha20poly1305::aead::{Aead, KeyInit};
use crate::commitment::to_array32;
use crate::crypto::{bytes_to_hex, hex_text, hex_to_bytes, parse_hex, random_bytes, sha256, sha256_of};
use crate::error::Error;
use crate::types::{EncryptedPayload, PrivacyLevel, ViewingKey};
use vstd::string::*;

verus! {

/// Plaintexts at least this long are refused by the cipher (`2^32 - 1` blocks of 64 bytes).
pub open spec fn max_plaintext_len() -> int {
    64 * 0xFFFF_FFFFint
}

/// The XChaCha20-Poly1305 ciphertext, tag included, of a plaintext under a key and nonce.
pub uninterp spec fn xchacha_seal(key: Seq<u8>, nonce: Seq<u8>, plaintext: Seq<u8>) -> Seq<u8>;

/// Relies on chacha20poly1305's XChaCha20Poly1305::encrypt: the sealed plaintext (as
/// long as the plaintext, followed by a 16-byte tag), or `None` for a plaintext of
/// `max_plaintext_len` bytes or more.
#[verifier::external_body]
fn seal(key: &[u8; 32], nonce: &[u8; 24], plaintext: &[u8]) -> (r: Option<Vec<u8>>)
    ensures
        r is Some <==> plaintext@.len() < max_plaintext_len(),
        r matches Some(c) ==> c@ == xchacha_seal(key@, nonce@, plaintext@),
        r matches Some(c) ==> c@.len() == plaintext@.len() + 16,
{
    let cipher = chacha20poly1305::XChaCha20Poly1305::new(key.into());
    cipher.encrypt(chacha20poly1305::XNonce::from_slice(nonce), plaintext).ok()
}

/// Relies on chacha20poly1305's XChaCha20Poly1305::decrypt: it opens exactly what was
/// sealed under the same key and nonce, and what it returns seals back to the
/// ciphertext it was given.
#[verifier::external_body]
fn open(key: &[u8; 32], nonce: &[u8; 24], ciphertext: &[u8]) -> (r: Option<Vec<u8>>)
    ensures
        forall|p: Seq<u8>|
            p.len() < max_plaintext_len() && ciphertext@ == #[trigger] xchacha_seal(key@, nonce@, p) ==> (r is Some
                && r->0@ == p),
        r matches Some(p) ==> ciphertext@ == xchacha_seal(key@, nonce@, p@),
{
    let cipher = chacha20poly1305::XChaCha20Poly1305::new(key.into());
    cipher.decrypt(chacha20poly1305::XNonce::from_slice(nonce), ciphertext).ok()
}

/// Relies on std::time::SystemTime::now: milliseconds since the Unix epoch, or 0
/// for a clock set before it.
#[verifier::external_body]
fn now_millis() -> (r: u64) {
    std::time::SystemTime::now().duration_since(std::time::UNIX_EPOCH).map_or(0, |d| d.as_millis() as u64)
}

/// Builds a viewing key from its 32 bytes, creation time and label; the hash is
/// SHA-256 of the key.
pub fn viewing_key_from_bytes(key: &[u8; 32], created_at: u64, label: Option<&str>) -> (r: ViewingKey)
    ensures
        r.key@ == hex_text(key@),
        r.key_hash@ == hex_text(sha256_of(key@)@),
        r.created_at == created_at,
        match label {
            Some(l) => r.label matches Some(s) && s@ == l@,
            None => r.label is None,
        },
{
    let digest = sha256(key);
    let label = match label {
        Some(l) => Some(String::from_str(l)),
        None => None,
    };
    ViewingKey { key: bytes_to_hex(key), key_hash: bytes_to_hex(&digest), created_at, label }
}

/// Generates a fresh viewing key with an optional label, stamped with the current time.
pub fn generate_viewing_key(label: Option<&str>) -> (r: ViewingKey)
    ensures
        exists|k: Seq<u8>| k.len() == 32 && r.key@ == hex_text(k) && r.key_hash@ == hex_text(sha256_of(k)@),
        match label {
            Some(l) => r.label matches Some(s) && s@ == l@,
            None => r.label is None,
        },
{
    let bytes = random_bytes(32);
    let key = to_array32(bytes.as_slice());
    let created_at = now_millis();
    viewing_key_from_bytes(&key, created_at, label)
}

/// What `derive_viewing_key_hash` returns: SHA-256 of the key's bytes as hex text.
pub open spec fn spec_viewing_key_hash(viewing_key: Seq<char>) -> Result<Seq<char>, Error> {
    match parse_hex(viewing_key) {
        None => Err(Error::InvalidHex),
        Some(k) => Ok(hex_text(sha256_of(k)@)),
    }
}

/// The hash under which a viewing key may be published: SHA-256 of its bytes.
pub fn derive_viewing_key_hash(viewing_key: &str) -> (r: Result<String, Error>)
    ensures
        match spec_viewing_key_hash(viewing_key@) {
            Ok(h) => r matches Ok(s) && s@ == h,
            Err(e) => r == Err::<String, Error>(e),
        },
{
    let key = match hex_to_bytes(viewing_key) {
        Ok(k) => k,
        Err(e) => return Err(e),
    };
    let digest = sha256(key.as_slice());
    Ok(bytes_to_hex(&digest))
}

/// What `encrypt_with_nonce` returns: the sealed plaintext and the nonce as hex text,
/// or why it is refused.
pub open spec fn spec_encrypt(viewing_key: Seq<char>, plaintext: Seq<u8>, nonce: Seq<u8>) -> Result<
    (Seq<char>, Seq<char>),
    Error,
> {
    match parse_hex(viewing_key) {
        None => Err(Error::InvalidHex),
        Some(k) => if k.len() != 32 {
            Err(Error::CryptoError)
        } else if plaintext.len() >= max_plaintext_len() {
            Err(Error::EncryptionError)
        } else {
            Ok((hex_text(xchacha_seal(k, nonce, plaintext)), hex_text(nonce)))
        },
    }
}

/// The payload as plain values.
pub open spec fn payload_view(r: Result<EncryptedPayload, Error>) -> Result<(Seq<char>, Seq<char>), Error> {
    match r {
        Ok(p) => Ok((p.ciphertext@, p.nonce@)),
        Err(e) => Err(e),
    }
}

/// Encrypts `plaintext` for the holders of a viewing key under the given nonce.
pub fn encrypt_with_nonce(viewing_key: &str, plaintext: &[u8], nonce: &[u8; 24]) -> (r: Result<
    EncryptedPayload,
    Error,
>)
    ensures
        payload_view(r) == spec_encrypt(viewing_key@, plaintext@, nonce@),
        r matches Ok(p) ==> p.ciphertext@.len() == 2 + 2 * (plaintext@.len() + 16),
{
    let key_bytes = match hex_to_bytes(viewing_key) {
        Ok(k) => k,
        Err(e) => return Err(e),
    };
    if key_bytes.len() != 32 {
        return Err(Error::CryptoError);
    }
    let key = to_array32(key_bytes.as_slice());
    match seal(&key, nonce, plaintext) {
        Some(c) => Ok(EncryptedPayload { ciphertext: bytes_to_hex(c.as_slice()), nonce: bytes_to_hex(nonce) }),
        None => Err(Error::EncryptionError),
    }
}

fn to_array24(s: &[u8]) -> (r: [u8; 24])
    requires
        s@.len() == 24,
    ensures
        r@ == s@,
{
    let mut out = [0u8; 24];
    let mut i: usize = 0;
    while i < 24
        invariant
            i <= 24,
            s@.len() == 24,
            forall|j: int| 0 <= j < i ==> out@[j] == s@[j],
        decreases 24 - i,
    {
        out[i] = s[i];
        i = i + 1;
    }
    assert(out@ =~= s@);
    out
}

/// Encrypts `plaintext` for the holders of a viewing key under a fresh random nonce.
pub fn encrypt_for_viewing_key(viewing_key: &str, plaintext: &[u8]) -> (r: Result<EncryptedPayload, Error>)
    ensures
        exists|nonce: Seq<u8>| nonce.len() == 24 && payload_view(r) == #[trigger] spec_encrypt(viewing_key@, plaintext@, nonce),
        r matches Ok(p) ==> p.ciphertext@.len() == 2 + 2 * (plaintext@.len() + 16),
{
    let nonce_bytes = random_bytes(24);
    let nonce = to_array24(nonce_bytes.as_slice());
    encrypt_with_nonce(viewing_key, plaintext, &nonce)
}

/// Why decryption is refused before the cipher is consulted, if it is.
pub open spec fn spec_decrypt_refusal(viewing_key: Seq<char>, nonce: Seq<char>, ciphertext: Seq<char>) -> Option<Error> {
    match (parse_hex(viewing_key), parse_hex(nonce), parse_hex(ciphertext)) {
        (None, _, _) => Some(Error::InvalidHex),
        (_, None, _) => Some(Error::InvalidHex),
        (_, _, None) => Some(Error::InvalidHex),
        (Some(k), Some(n), Some(_)) => if k.len() != 32 {
            Some(Error::CryptoError)
        } else if n.len() != 24 {
            Some(Error::DecryptionError)
        } else {
            None
        },
    }
}

/// Whether decryption owes `p`: the inputs pass the checks and the ciphertext is
/// `p` sealed under the key and nonce.
pub open spec fn decryption_owes(viewing_key: Seq<char>, nonce: Seq<char>, ciphertext: Seq<char>, p: Seq<u8>) -> bool {
    spec_decrypt_refusal(viewing_key, nonce, ciphertext) is None && p.len() < max_plaintext_len()
        && parse_hex(ciphertext)->Some_0 == xchacha_seal(
        parse_hex(viewing_key)->Some_0,
        parse_hex(nonce)->Some_0,
        p,
    )
}

/// Whether decryption may return `p`: the inputs pass the checks and `p` sealed
/// under the key and nonce is exactly the ciphertext.
pub open spec fn decryption_admits(viewing_key: Seq<char>, nonce: Seq<char>, ciphertext: Seq<char>, p: Seq<u8>) -> bool {
    spec_decrypt_refusal(viewing_key, nonce, ciphertext) is None && parse_hex(ciphertext)->Some_0 == xchacha_seal(
        parse_hex(viewing_key)->Some_0,
        parse_hex(nonce)->Some_0,
        p,
    )
}

/// Decrypts a payload with a viewing key. What was sealed under the key and nonce
/// comes back exactly; anything else fails with `DecryptionError`, and no plaintext
/// is returned that does not seal back to the given ciphertext.
pub fn decrypt_with_viewing_key(viewing_key: &str, payload: &EncryptedPayload) -> (r: Result<Vec<u8>, Error>)
    ensures
        match spec_decrypt_refusal(viewing_key@, payload.nonce@, payload.ciphertext@) {
            Some(e) => r == Err::<Vec<u8>, Error>(e),
            None => {
                &&& forall|p: Seq<u8>|
                    #[trigger] decryption_owes(viewing_key@, payload.nonce@, payload.ciphertext@, p) ==> (r is Ok
                        && r->Ok_0@ == p)
                &&& r matches Ok(p) ==> decryption_admits(viewing_key@, payload.nonce@, payload.ciphertext@, p@)
                &&& r is Err ==> r == Err::<Vec<u8>, Error>(Error::DecryptionError)
            },
        },
{
    let key_bytes = match hex_to_bytes(viewing_key) {
        Ok(k) => k,
        Err(e) => return Err(e),
    };
    let nonce_bytes = match hex_to_bytes(payload.nonce.as_str()) {
        Ok(n) => n,
        Err(e) => return Err(e),
    };
    let ciphertext = match hex_to_bytes(payload.ciphertext.as_str()) {
        Ok(c) => c,
        Err(e) => return Err(e),
    };
    if key_bytes.len() != 32 {
        return Err(Error::CryptoError);
    }
    if nonce_bytes.len() != 24 {
        return Err(Error::DecryptionError);
    }
    let key = to_array32(key_bytes.as_slice());
    let nonce = to_array24(nonce_bytes.as_slice());
    match open(&key, &nonce, ciphertext.as_slice()) {
        Some(p) => Ok(p),
        None => Err(Error::DecryptionError),
    }
}

/// Encryption round trip: what is encrypted for a 32-byte key comes back exactly
/// when decrypted with the same key.
pub proof fn lemma_encryption_round_trip(key: Seq<u8>, plaintext: Seq<u8>, nonce: Seq<u8>)
    requires
        key.len() == 32,
        nonce.len() == 24,
        plaintext.len() < max_plaintext_len(),
    ensures
        spec_encrypt(hex_text(key), plaintext, nonce) matches Ok((c, n)) && decryption_owes(hex_text(key), n, c, plaintext),
{
    crate::crypto::lemma_hex_round_trip(key);
    crate::crypto::lemma_hex_round_trip(nonce);
    crate::crypto::lemma_hex_round_trip(xchacha_seal(key, nonce, plaintext));
}

/// A changed ciphertext never decrypts to the plaintext that was encrypted: when a
/// payload's ciphertext is replaced by one that spells other bytes, any plaintext
/// that decryption may return differs from the original one.
pub proof fn lemma_altered_ciphertext_never_opens_to_plaintext(
    key: Seq<u8>,
    plaintext: Seq<u8>,
    nonce: Seq<u8>,
    altered: Seq<char>,
    opened: Seq<u8>,
)
    requires
        key.len() == 32,
        nonce.len() == 24,
        plaintext.len() < max_plaintext_len(),
    ensures
        spec_encrypt(hex_text(key), plaintext, nonce) matches Ok((c, n)) && (parse_hex(altered) is Some
            && parse_hex(altered) != parse_hex(c) && decryption_admits(hex_text(key), n, altered, opened)
            ==> opened != plaintext),
{
    crate::crypto::lemma_hex_round_trip(key);
    crate::crypto::lemma_hex_round_trip(nonce);
    crate::crypto::lemma_hex_round_trip(xchacha_seal(key, nonce, plaintext));
}

/// Whether a privacy level encrypts transfer details.
pub fn should_encrypt(level: PrivacyLevel) -> (r: bool)
    ensures
        r == (level == PrivacyLevel::Shielded || level == PrivacyLevel::Compliant),
{
    match level {
        PrivacyLevel::Shielded | PrivacyLevel::Compliant => true,
        PrivacyLevel::Transparent => false,
    }
}

/// Whether a privacy level makes the viewing key available to auditors.
pub fn should_include_viewing_key(level: PrivacyLevel) -> (r: bool)
    ensures
        r == (level == PrivacyLevel::Compliant),
{
    match level {
        PrivacyLevel::Compliant => true,
        _ => false,
    }
}

} // verus!
