use sip_protocol::privacy::{encrypt_with_nonce, viewing_key_from_bytes};
use sip_protocol::{
    decrypt_with_viewing_key, derive_viewing_key_hash, encrypt_for_viewing_key, generate_viewing_key,
    should_encrypt, should_include_viewing_key, EncryptedPayload, Error, PrivacyLevel,
};

#[test]
fn test_generate_viewing_key() {
    let vk = generate_viewing_key(Some("test"));
    assert!(vk.key.starts_with("0x"));
    assert!(vk.key_hash.starts_with("0x"));
    assert_eq!(vk.label, Some("test".to_string()));
}

#[test]
fn test_encrypt_decrypt() {
    let vk = generate_viewing_key(None);
    let plaintext = b"Hello, SIP Protocol!";

    let payload = encrypt_for_viewing_key(&vk.key, plaintext).unwrap();
    let decrypted = decrypt_with_viewing_key(&vk.key, &payload).unwrap();

    assert_eq!(plaintext.as_slice(), decrypted.as_slice());
}

#[test]
fn test_derive_viewing_key_hash() {
    let vk = generate_viewing_key(None);
    let hash = derive_viewing_key_hash(&vk.key).unwrap();
    assert_eq!(hash, vk.key_hash);
}

#[test]
fn empty_plaintext_round_trip() {
    let vk = generate_viewing_key(None);
    let payload = encrypt_for_viewing_key(&vk.key, b"").unwrap();
    assert_eq!(payload.nonce.len(), 2 + 48);
    assert_eq!(payload.ciphertext.len(), 2 + 32);
    assert_eq!(decrypt_with_viewing_key(&vk.key, &payload).unwrap(), Vec::<u8>::new());
}

fn flip(hex: &str, bit: usize) -> String {
    let mut bytes = sip_protocol::hex_to_bytes(hex).unwrap();
    bytes[bit / 8] ^= 1 << (bit % 8);
    sip_protocol::bytes_to_hex(&bytes)
}

#[test]
fn tampering_fails_decryption() {
    let vk = generate_viewing_key(None);
    let payload = encrypt_for_viewing_key(&vk.key, b"amount: 100").unwrap();
    let ct_bits = (payload.ciphertext.len() - 2) / 2 * 8;
    for bit in 0..ct_bits {
        let tampered = EncryptedPayload { ciphertext: flip(&payload.ciphertext, bit), nonce: payload.nonce.clone() };
        assert_eq!(decrypt_with_viewing_key(&vk.key, &tampered).unwrap_err(), Error::DecryptionError);
    }
    for bit in 0..24 * 8 {
        let tampered = EncryptedPayload { ciphertext: payload.ciphertext.clone(), nonce: flip(&payload.nonce, bit) };
        assert_eq!(decrypt_with_viewing_key(&vk.key, &tampered).unwrap_err(), Error::DecryptionError);
    }
    assert_eq!(payload.ciphertext.len(), 2 + 2 * (11 + 16));
    let other = generate_viewing_key(None);
    assert_eq!(decrypt_with_viewing_key(&other.key, &payload).unwrap_err(), Error::DecryptionError);
}

#[test]
fn encryption_errors() {
    assert_eq!(encrypt_for_viewing_key("0x1234", b"x").unwrap_err(), Error::CryptoError);
    assert_eq!(encrypt_for_viewing_key("0xz", b"x").unwrap_err(), Error::InvalidHex);
    let vk = generate_viewing_key(None);
    let payload = EncryptedPayload { ciphertext: "0x00".to_string(), nonce: "0x0102".to_string() };
    assert_eq!(decrypt_with_viewing_key(&vk.key, &payload).unwrap_err(), Error::DecryptionError);
    assert_eq!(decrypt_with_viewing_key("0x12", &payload).unwrap_err(), Error::CryptoError);
}

#[test]
fn fixed_key_and_nonce_vector() {
    let key = format!("0x{}", "00".repeat(32));
    let payload = encrypt_with_nonce(&key, b"", &[0u8; 24]).unwrap();
    assert_eq!(payload.nonce, format!("0x{}", "00".repeat(24)));
    assert_eq!(decrypt_with_viewing_key(&key, &payload).unwrap(), Vec::<u8>::new());
    let vk = viewing_key_from_bytes(&[0u8; 32], 17, Some("audit"));
    assert_eq!(vk.key_hash, "0x66687aadf862bd776c8fc18b8e9f8e20089714856ee233b3902a591d0d5f2925");
    assert_eq!(vk.created_at, 17);
    assert_eq!(derive_viewing_key_hash(&vk.key).unwrap(), vk.key_hash);
}

#[test]
fn disclosure_policy() {
    assert!(!should_encrypt(PrivacyLevel::Transparent));
    assert!(should_encrypt(PrivacyLevel::Shielded));
    assert!(should_encrypt(PrivacyLevel::Compliant));
    assert!(!should_include_viewing_key(PrivacyLevel::Transparent));
    assert!(!should_include_viewing_key(PrivacyLevel::Shielded));
    assert!(should_include_viewing_key(PrivacyLevel::Compliant));
    assert_eq!("Shielded".parse::<PrivacyLevel>(), Ok(PrivacyLevel::Shielded));
    assert_eq!("private".parse::<PrivacyLevel>(), Err("Invalid privacy level: private".to_string()));
    assert_eq!(PrivacyLevel::Compliant.as_str(), "compliant");
}
