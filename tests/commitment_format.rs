use sip_protocol::commitment_format::{
    compute_commitment, verify_commitment_format, verify_commitment_sum, CommitmentError,
    CommitmentPoint, POINT_SIZE, SCALAR_SIZE,
};

#[test]
fn test_valid_point_format() {
    let mut point = [0u8; POINT_SIZE];
    point[0] = 0x02;
    assert!(CommitmentPoint::from_bytes(point).is_ok());

    point[0] = 0x03;
    assert!(CommitmentPoint::from_bytes(point).is_ok());

    point[0] = 0x04;
    assert!(CommitmentPoint::from_bytes(point).is_err());
}

#[test]
fn test_verify_commitment_format() {
    let mut commitment = [0u8; POINT_SIZE];
    commitment[0] = 0x02;

    let blinding = [1u8; SCALAR_SIZE];

    assert!(verify_commitment_format(&commitment, 100, &blinding).is_ok());
}

#[test]
fn format_checks_reject_bad_prefix() {
    let good = [2u8; POINT_SIZE];
    let mut bad = [2u8; POINT_SIZE];
    bad[0] = 4;
    assert_eq!(verify_commitment_format(&bad, 1, &[1u8; 32]), Err(CommitmentError::InvalidPointFormat));
    assert_eq!(verify_commitment_sum(&good, &good, &good), Ok(true));
    assert_eq!(verify_commitment_sum(&good, &bad, &good), Err(CommitmentError::InvalidPointFormat));
    assert!(CommitmentPoint::from_bytes(good).unwrap().is_valid_format());
}

#[test]
fn stand_in_layout() {
    assert_eq!(compute_commitment(5, &[0u8; 32]), Err(CommitmentError::InvalidScalar));
    let mut blinding = [0u8; 32];
    for (i, b) in blinding.iter_mut().enumerate() {
        *b = i as u8 + 1;
    }
    let point = compute_commitment(0x0102030405060708, &blinding).unwrap();
    assert_eq!(point[0], 2);
    assert_eq!(&point[1..9], &[8, 7, 6, 5, 4, 3, 2, 1]);
    assert_eq!(&point[9..17], &[1, 2, 3, 4, 5, 6, 7, 8]);
    assert!(point[17..].iter().all(|b| *b == 0));
}
