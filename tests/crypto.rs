use sip_protocol::{bytes_to_hex, generate_intent_id, generate_random_bytes, hash_sha256, hex_to_bytes, Error};

#[test]
fn test_hash_sha256() {
    let hash = hash_sha256(b"hello");
    assert!(hash.starts_with("0x"));
    assert_eq!(hash.len(), 66);
}

#[test]
fn test_generate_random_bytes() {
    let random = generate_random_bytes(32);
    assert!(random.starts_with("0x"));
    assert_eq!(random.len(), 66);
}

#[test]
fn test_generate_intent_id() {
    let id = generate_intent_id();
    assert!(id.starts_with("sip-"));
    assert_eq!(id.len(), 36);
}

#[test]
fn test_hex_conversion() {
    let input = vec![1, 2, 3, 4];
    let hex = bytes_to_hex(&input);
    let bytes = hex_to_bytes(&hex).unwrap();
    assert_eq!(input, bytes);
}

#[test]
fn sha256_known_digest() {
    assert_eq!(
        hash_sha256(b"hello"),
        "0x2cf24dba5fb0a30e26e83b2ac5b9e29e1b161e5c1fa7425e73043362938b9824"
    );
    assert_eq!(
        hash_sha256(b""),
        "0xe3b0c44298fc1c149afbf4c8996fb92427ae41e4649b934ca495991b7852b855"
    );
}

#[test]
fn hex_edges() {
    assert_eq!(bytes_to_hex(&[0x00, 0xab, 0xff]), "0x00abff");
    assert_eq!(bytes_to_hex(&[]), "0x");
    assert_eq!(hex_to_bytes("0x").unwrap(), Vec::<u8>::new());
    assert_eq!(hex_to_bytes("ABcd").unwrap(), vec![0xab, 0xcd]);
    assert_eq!(hex_to_bytes("0xABC").unwrap_err(), Error::InvalidHex);
    assert_eq!(hex_to_bytes("0xgg").unwrap_err(), Error::InvalidHex);
    assert_eq!(hex_to_bytes("0X12").unwrap_err(), Error::InvalidHex);
}
