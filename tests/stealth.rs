use sip_protocol::stealth::{
    eip55_checksum, one_time_address, stealth_address_with_ephemeral,
    stealth_meta_address_from_secrets, stealth_private_scalar,
};
use sip_protocol::{
    check_stealth_address, decode_stealth_meta_address, derive_stealth_private_key,
    encode_stealth_meta_address, generate_stealth_address, generate_stealth_meta_address,
    public_key_to_eth_address, Error, StealthMetaAddress,
};

fn scalar(byte: u8) -> [u8; 32] {
    let mut b = [0u8; 32];
    b[31] = byte;
    b
}

fn order_plus(k: u8) -> [u8; 32] {
    let mut b = [0u8; 32];
    let order = "fffffffffffffffffffffffffffffffebaaedce6af48a03bbfd25e8cd0364141";
    b.copy_from_slice(&sip_protocol::hex_to_bytes(order).unwrap());
    b[31] += k;
    b
}

#[test]
fn compact_public_keys_are_refused() {
    let (meta, sp, vk) = stealth_meta_address_from_secrets("ethereum", &scalar(3), &scalar(5)).unwrap();
    let compact = format!("0x05{}", &meta.spending_key[4..]);
    let bad = StealthMetaAddress::new(compact.clone(), meta.viewing_key.clone(), "ethereum".to_string());
    assert_eq!(generate_stealth_address(&bad).unwrap_err(), Error::InvalidPublicKey);
    let (stealth, _) = stealth_address_with_ephemeral(&meta, &scalar(7)).unwrap();
    let forged = sip_protocol::StealthAddress {
        address: stealth.address.clone(),
        ephemeral_public_key: format!("0x05{}", &stealth.ephemeral_public_key[4..]),
        view_tag: stealth.view_tag,
    };
    assert_eq!(check_stealth_address(&forged, &sp, &vk).unwrap_err(), Error::InvalidPublicKey);
    assert_eq!(derive_stealth_private_key(&forged, &sp, &vk).unwrap_err(), Error::InvalidPublicKey);
    assert_eq!(public_key_to_eth_address(&compact).unwrap_err(), Error::InvalidPublicKey);
}

#[test]
fn test_generate_and_recover() {
    let (meta, spending_priv, viewing_priv) = generate_stealth_meta_address("ethereum");

    let (stealth, _) = generate_stealth_address(&meta).unwrap();

    assert!(check_stealth_address(&stealth, &spending_priv, &viewing_priv).unwrap());

    let recovery = derive_stealth_private_key(&stealth, &spending_priv, &viewing_priv).unwrap();
    assert!(!recovery.private_key.is_empty());
}

#[test]
fn test_encode_decode_meta_address() {
    let (meta, _, _) = generate_stealth_meta_address("ethereum");

    let encoded = encode_stealth_meta_address(&meta);
    let decoded = decode_stealth_meta_address(&encoded).unwrap();

    assert_eq!(meta.chain, decoded.chain);
    assert_eq!(meta.spending_key, decoded.spending_key);
    assert_eq!(meta.viewing_key, decoded.viewing_key);
}

#[test]
fn recovered_key_spends_the_address() {
    let (meta, sp, vk) = stealth_meta_address_from_secrets("ethereum", &scalar(3), &scalar(5)).unwrap();
    assert_eq!(sp, format!("0x{}03", "00".repeat(31)));
    let (stealth, digest) = stealth_address_with_ephemeral(&meta, &scalar(7)).unwrap();
    assert_eq!(digest.len(), 66);
    assert_eq!(u8::from_str_radix(&digest[2..4], 16).unwrap(), stealth.view_tag);
    assert!(check_stealth_address(&stealth, &sp, &vk).unwrap());
    let recovery = derive_stealth_private_key(&stealth, &sp, &vk).unwrap();
    assert_eq!(recovery.stealth_address, stealth.address);
    let key = sip_protocol::hex_to_bytes(&recovery.private_key).unwrap();
    let mut key_arr = [0u8; 32];
    key_arr.copy_from_slice(&key);
    let (again, _, _) = stealth_meta_address_from_secrets("x", &key_arr, &scalar(1)).unwrap();
    assert_eq!(again.spending_key, stealth.address);
}

#[test]
fn foreign_keys_are_refused() {
    let (meta, sp, vk) = stealth_meta_address_from_secrets("ethereum", &scalar(3), &scalar(5)).unwrap();
    let (stealth, _) = stealth_address_with_ephemeral(&meta, &scalar(7)).unwrap();
    let other = format!("0x{}09", "00".repeat(31));
    assert!(!check_stealth_address(&stealth, &sp, &other).unwrap());
    let checked = check_stealth_address(&stealth, &other, &vk);
    assert_eq!(checked, Ok(false));
}

#[test]
fn view_tags_spread_over_bytes() {
    let (meta, _, _) = generate_stealth_meta_address("ethereum");
    let mut counts = [0u32; 256];
    let samples = 1024;
    for _ in 0..samples {
        let (stealth, _) = generate_stealth_address(&meta).unwrap();
        counts[stealth.view_tag as usize] += 1;
    }
    let distinct = counts.iter().filter(|c| **c > 0).count();
    assert!(distinct > 200);
    assert!(counts.iter().all(|c| *c < 25));
}

#[test]
fn stealth_errors() {
    let bad = StealthMetaAddress::new("0x1234".to_string(), "0x1234".to_string(), "ethereum".to_string());
    assert_eq!(generate_stealth_address(&bad).unwrap_err(), Error::InvalidPublicKey);
    let not_hex = StealthMetaAddress::new("zz".to_string(), "0x1234".to_string(), "ethereum".to_string());
    assert_eq!(generate_stealth_address(&not_hex).unwrap_err(), Error::InvalidHex);
    assert_eq!(
        stealth_meta_address_from_secrets("x", &[0u8; 32], &scalar(1)).unwrap_err(),
        Error::InvalidPrivateKey
    );
    let (meta, sp, vk) = stealth_meta_address_from_secrets("ethereum", &scalar(3), &scalar(5)).unwrap();
    let (stealth, _) = stealth_address_with_ephemeral(&meta, &scalar(7)).unwrap();
    assert_eq!(derive_stealth_private_key(&stealth, "0x00", &vk).unwrap_err(), Error::InvalidPrivateKey);
    assert_eq!(check_stealth_address(&stealth, &sp, "0xq").unwrap_err(), Error::InvalidHex);
}

#[test]
fn meta_address_text_format() {
    let meta = StealthMetaAddress::with_label("0x02aa".to_string(), "0x03bb".to_string(), "near".to_string(), "me".to_string());
    assert_eq!(encode_stealth_meta_address(&meta), "sip:near:0x02aa:0x03bb");
    assert_eq!(meta.label, Some("me".to_string()));
    let decoded = decode_stealth_meta_address("sip:solana:0x01:0x02").unwrap();
    assert_eq!(decoded.chain, "solana");
    assert_eq!(decoded.spending_key, "0x01");
    assert_eq!(decoded.viewing_key, "0x02");
    assert_eq!(decoded.label, None);
    assert_eq!(decode_stealth_meta_address("sip:a:b").unwrap_err(), Error::InvalidStealthMetaAddress);
    assert_eq!(decode_stealth_meta_address("sap:a:b:c").unwrap_err(), Error::InvalidStealthMetaAddress);
    assert_eq!(decode_stealth_meta_address("sip:a:b:c:d").unwrap_err(), Error::InvalidStealthMetaAddress);
    assert_eq!(decode_stealth_meta_address("sip:::").unwrap().chain, "");
}

#[test]
fn eth_address_of_generator() {
    let g = "0x0279be667ef9dcbbac55a06295ce870b07029bfcdb2dce28d959f2815b16f81798";
    assert_eq!(public_key_to_eth_address(g).unwrap(), "0x7E5F4552091A69125d5DfCb7b8C2659029395Bdf");
    assert_eq!(public_key_to_eth_address("0x02").unwrap_err(), Error::InvalidPublicKey);
    assert_eq!(public_key_to_eth_address("nothex").unwrap_err(), Error::InvalidHex);
}

#[test]
fn one_time_address_adds_digest_times_g() {
    let g = sip_protocol::hex_to_bytes("0x0279be667ef9dcbbac55a06295ce870b07029bfcdb2dce28d959f2815b16f81798").unwrap();
    let mut g_arr = [0u8; 33];
    g_arr.copy_from_slice(&g);
    let two_g = one_time_address(&g_arr, &scalar(1)).unwrap();
    assert_eq!(
        sip_protocol::bytes_to_hex(&two_g),
        "0x02c6047f9441ed7d6d3045406e95c07cd85c778e4b8cef3ca7abac09b95c709ee5"
    );
    assert!(one_time_address(&g_arr, &[0xffu8; 32]).is_ok());
    assert_eq!(one_time_address(&g_arr, &order_plus(0)).unwrap_err(), Error::CryptoError);
    assert_eq!(one_time_address(&g_arr, &order_plus(1)).unwrap(), two_g);
    let mut compact = g_arr;
    compact[0] = 5;
    assert_eq!(one_time_address(&compact, &scalar(1)).unwrap_err(), Error::InvalidPublicKey);
    assert_eq!(one_time_address(&[0u8; 33], &scalar(1)).unwrap_err(), Error::InvalidPublicKey);
}

#[test]
fn recipient_scalar_is_viewing_key_plus_digest() {
    let vk = format!("0x{}05", "00".repeat(31));
    assert_eq!(stealth_private_scalar(&vk, &scalar(7)).unwrap(), scalar(12));
    let zero = format!("0x{}", "00".repeat(32));
    assert_eq!(stealth_private_scalar(&zero, &scalar(7)).unwrap_err(), Error::InvalidPrivateKey);
    assert_eq!(stealth_private_scalar(&vk, &order_plus(0)).unwrap_err(), Error::CryptoError);
    assert_eq!(stealth_private_scalar(&vk, &order_plus(7)).unwrap(), scalar(12));
}

#[test]
fn eip55_case_follows_checksum_nibbles() {
    assert_eq!(eip55_checksum("abc123", &[0xffu8; 32]), "ABC123");
    assert_eq!(eip55_checksum("abc123", &[0u8; 32]), "abc123");
    let mut checksum = [0u8; 32];
    checksum[0] = 0x80;
    assert_eq!(eip55_checksum("ab", &checksum), "Ab");
}
