use sip_protocol::{
    add_blindings, add_commitments, commit, commit_with_blinding, commit_zero, generate_blinding,
    generate_h, get_generators, subtract_blindings, subtract_commitments, verify_opening, Error,
};

const G_X: &str = "0x79be667ef9dcbbac55a06295ce870b07029bfcdb2dce28d959f2815b16f81798";
const G_Y: &str = "0x483ada7726a3c4655da4fbfc0e1108a8fd17b448a68554199c47d08ffb10d4b8";

fn blinding(byte: u8) -> [u8; 32] {
    let mut b = [0u8; 32];
    b[31] = byte;
    b
}

#[test]
fn test_commit_and_verify() {
    let (commitment, blinding) = commit(100).unwrap();
    assert!(verify_opening(&commitment, 100, &blinding).unwrap());
    assert!(!verify_opening(&commitment, 101, &blinding).unwrap());
}

#[test]
fn test_homomorphic_addition() {
    let (c1, b1) = commit(100).unwrap();
    let (c2, b2) = commit(50).unwrap();

    let c_sum = add_commitments(&c1, &c2).unwrap();
    let b_sum = add_blindings(&b1, &b2).unwrap();

    assert!(verify_opening(&c_sum, 150, &b_sum).unwrap());
}

#[test]
fn homomorphic_subtraction() {
    let (c1, b1) = commit_with_blinding(500, &blinding(9)).unwrap();
    let (c2, b2) = commit_with_blinding(200, &blinding(4)).unwrap();
    let diff = subtract_commitments(&c1, &c2).unwrap();
    let b_diff = subtract_blindings(&b1, &b2).unwrap();
    assert_eq!(b_diff, format!("0x{}05", "00".repeat(31)));
    assert!(verify_opening(&diff, 300, &b_diff).unwrap());
    assert!(!verify_opening(&diff, 299, &b_diff).unwrap());
}

#[test]
fn homomorphism_at_u64_bounds() {
    let (c1, b1) = commit_with_blinding(u64::MAX - 1, &blinding(1)).unwrap();
    let (c2, b2) = commit_with_blinding(1, &blinding(2)).unwrap();
    let sum = add_commitments(&c1, &c2).unwrap();
    let b_sum = add_blindings(&b1, &b2).unwrap();
    assert!(verify_opening(&sum, u64::MAX, &b_sum).unwrap());
}

#[test]
fn binding_rejects_other_values() {
    let (c, b) = commit_with_blinding(42, &blinding(7)).unwrap();
    for wrong in [0u64, 41, 43, u64::MAX] {
        assert!(!verify_opening(&c, wrong, &b).unwrap());
    }
    assert!(verify_opening(&c, 42, &b).unwrap());
}

#[test]
fn commitment_is_deterministic_and_formatted() {
    let (c1, b1) = commit_with_blinding(7, &blinding(3)).unwrap();
    let (c2, _) = commit_with_blinding(7, &blinding(3)).unwrap();
    assert_eq!(c1, c2);
    assert_eq!(c1.len(), 68);
    assert!(c1.starts_with("0x02") || c1.starts_with("0x03"));
    assert_eq!(b1, format!("0x{}03", "00".repeat(31)));
    let (z, _) = commit_zero(&blinding(3)).unwrap();
    assert_ne!(z, c1);
    assert!(verify_opening(&z, 0, &b1).unwrap());
}

const ORDER: &str = "fffffffffffffffffffffffffffffffebaaedce6af48a03bbfd25e8cd0364141";

fn order_plus(k: u8) -> [u8; 32] {
    let mut b = [0u8; 32];
    b.copy_from_slice(&sip_protocol::hex_to_bytes(ORDER).unwrap());
    b[31] += k;
    b
}

#[test]
fn commit_rejects_bad_blindings() {
    assert_eq!(commit_with_blinding(1, &[1u8; 31]).unwrap_err(), Error::CryptoError);
    assert_eq!(commit_with_blinding(1, &[0u8; 32]).unwrap_err(), Error::CryptoError);
    assert_eq!(commit_with_blinding(1, &order_plus(0)).unwrap_err(), Error::CryptoError);
}

#[test]
fn blinding_above_order_is_reduced() {
    let (c, b) = commit_with_blinding(9, &order_plus(5)).unwrap();
    let (c5, b5) = commit_with_blinding(9, &blinding(5)).unwrap();
    assert_eq!(c, c5);
    assert_eq!(b, b5);
    assert_eq!(b, format!("0x{}05", "00".repeat(31)));
    assert!(verify_opening(&c, 9, &b).unwrap());
    assert!(commit_with_blinding(1, &[0xffu8; 32]).is_ok());
    let above = format!("0x{}", ORDER);
    assert_eq!(verify_opening(&c, 9, &above).unwrap_err(), Error::CryptoError);
}

#[test]
fn identity_and_compact_points_are_no_commitments() {
    let (c, b) = commit_with_blinding(5, &blinding(5)).unwrap();
    let identity = format!("0x{}", "00".repeat(33));
    assert_eq!(verify_opening(&identity, 5, &b).unwrap_err(), Error::InvalidPublicKey);
    assert_eq!(add_commitments(&c, &identity).unwrap_err(), Error::InvalidPublicKey);
    assert_eq!(subtract_commitments(&identity, &c).unwrap_err(), Error::InvalidPublicKey);
    let compact_g = format!("0x05{}", &G_X[2..]);
    assert_eq!(verify_opening(&compact_g, 5, &b).unwrap_err(), Error::InvalidPublicKey);
    assert_eq!(add_commitments(&compact_g, &c).unwrap_err(), Error::InvalidPublicKey);
}

#[test]
fn verify_opening_errors() {
    let (c, b) = commit_with_blinding(5, &blinding(5)).unwrap();
    assert_eq!(verify_opening("0xzz", 5, &b).unwrap_err(), Error::InvalidHex);
    assert_eq!(verify_opening(&c, 5, "0x123").unwrap_err(), Error::InvalidHex);
    assert_eq!(verify_opening("0x0102", 5, &b).unwrap_err(), Error::InvalidPublicKey);
    let off_curve = format!("0x05{}", "11".repeat(32));
    assert_eq!(verify_opening(&off_curve, 5, &b).unwrap_err(), Error::InvalidPublicKey);
    assert_eq!(verify_opening(&c, 5, "0x0102").unwrap_err(), Error::CryptoError);
    assert_eq!(add_commitments(&c, "0x0102").unwrap_err(), Error::InvalidPublicKey);
    assert_eq!(add_blindings(&b, "0x0102").unwrap_err(), Error::CryptoError);
}

#[test]
fn generator_h_is_independent_and_stable() {
    let h1 = generate_h().unwrap();
    let h2 = generate_h().unwrap();
    assert_eq!(h1, h2);
    assert_eq!(h1[0], 2);
    let (gx, gy, hx, hy) = get_generators().unwrap();
    assert_eq!(gx, G_X);
    assert_eq!(gy, G_Y);
    assert_ne!(hx, gx);
    assert_eq!(hx.len(), 66);
    assert_eq!(hy.len(), 66);
    assert_eq!(hx[2..], sip_protocol::bytes_to_hex(&h1[1..])[2..]);
}

#[test]
fn generated_blinding_is_hex_scalar() {
    let b = generate_blinding();
    assert!(b.starts_with("0x"));
    assert_eq!(b.len(), 66);
}
