use sip_protocol::zk_verifier::{
    deserialize_proof, estimate_compute_units, is_valid_field_element, verify_funding_proof,
    verify_proof, verify_validity_proof, DeserializedProof, ProofType, ProofVerifier,
    StructuralVerifier, VerificationFailure, ZkVerifyError,
};

fn envelope(tag: u8, count: u32, inputs: usize, proof_len: u32, proof: usize) -> Vec<u8> {
    let mut data = Vec::new();
    data.push(tag);
    data.extend_from_slice(&count.to_le_bytes());
    for _ in 0..inputs {
        data.extend_from_slice(&[0u8; 32]);
    }
    data.extend_from_slice(&proof_len.to_le_bytes());
    data.extend_from_slice(&vec![0u8; proof]);
    data
}

#[test]
fn test_proof_type_from_u8() {
    assert_eq!(ProofType::try_from_u8(0), Some(ProofType::Funding));
    assert_eq!(ProofType::try_from_u8(1), Some(ProofType::Validity));
    assert_eq!(ProofType::try_from_u8(2), Some(ProofType::Fulfillment));
    assert_eq!(ProofType::try_from_u8(3), None);
    assert_eq!(ProofType::try_from_u8(255), None);
}

#[test]
fn test_expected_public_inputs() {
    assert_eq!(ProofType::Funding.expected_public_inputs(), 3);
    assert_eq!(ProofType::Validity.expected_public_inputs(), 6);
    assert_eq!(ProofType::Fulfillment.expected_public_inputs(), 8);
}

#[test]
fn test_valid_field_element() {
    let valid = [0u8; 32];
    assert!(is_valid_field_element(&valid));

    let mut large_valid = [0u8; 32];
    large_valid[0] = 0x30;
    assert!(is_valid_field_element(&large_valid));

    let mut invalid = [0u8; 32];
    invalid[0] = 0x40;
    assert!(!is_valid_field_element(&invalid));
}

#[test]
fn test_deserialize_proof_format() {
    let mut data = Vec::new();
    data.push(0);
    data.extend_from_slice(&3u32.to_le_bytes());
    for _ in 0..3 {
        data.extend_from_slice(&[0u8; 32]);
    }
    data.extend_from_slice(&100u32.to_le_bytes());
    data.extend_from_slice(&[0u8; 100]);

    let result = deserialize_proof(&data);
    assert!(result.is_ok());

    let proof = result.unwrap();
    assert_eq!(proof.proof_type, ProofType::Funding);
    assert_eq!(proof.public_inputs.len(), 3);
    assert_eq!(proof.proof_bytes.len(), 100);
}

#[test]
fn test_deserialize_invalid_proof_type() {
    let mut data = Vec::new();
    data.push(99);
    data.extend_from_slice(&3u32.to_le_bytes());

    let result = deserialize_proof(&data);
    assert!(matches!(result, Err(ZkVerifyError::UnsupportedProofType)));
}

#[test]
fn test_deserialize_too_many_inputs() {
    let mut data = Vec::new();
    data.push(0);
    data.extend_from_slice(&100u32.to_le_bytes());

    let result = deserialize_proof(&data);
    assert!(matches!(result, Err(ZkVerifyError::TooManyPublicInputs)));
}

#[test]
fn test_verify_proof_too_short() {
    let proof = DeserializedProof {
        proof_type: ProofType::Funding,
        proof_bytes: vec![0u8; 10],
        public_inputs: vec![[0u8; 32]; 3],
    };

    let result = verify_proof(&proof);
    assert!(!result.valid);
    assert!(result.error.is_some());
}

#[test]
fn test_verify_proof_missing_inputs() {
    let proof = DeserializedProof {
        proof_type: ProofType::Funding,
        proof_bytes: vec![0u8; 100],
        public_inputs: vec![[0u8; 32]; 1],
    };

    let result = verify_proof(&proof);
    assert!(!result.valid);
}

#[test]
fn test_estimate_compute_units() {
    assert!(estimate_compute_units(ProofType::Funding) > 0);
    assert!(estimate_compute_units(ProofType::Validity) > estimate_compute_units(ProofType::Funding));
}

#[test]
fn deserialize_funding_with_one_input_is_missing_inputs() {
    let data = envelope(0, 1, 1, 100, 100);
    assert_eq!(deserialize_proof(&data).unwrap_err(), ZkVerifyError::MissingPublicInputs);
}

#[test]
fn deserialize_empty_and_truncated_buffers() {
    assert_eq!(deserialize_proof(&[]).unwrap_err(), ZkVerifyError::InvalidProofFormat);
    assert_eq!(deserialize_proof(&[0, 3, 0]).unwrap_err(), ZkVerifyError::InvalidProofFormat);
    let short_inputs = envelope(0, 3, 2, 0, 0);
    assert_eq!(deserialize_proof(&short_inputs).unwrap_err(), ZkVerifyError::InvalidProofFormat);
    let short_body = envelope(0, 3, 3, 100, 99);
    assert_eq!(deserialize_proof(&short_body).unwrap_err(), ZkVerifyError::InvalidProofFormat);
}

#[test]
fn deserialize_proof_too_large() {
    let data = envelope(1, 6, 6, 4097, 0);
    assert_eq!(deserialize_proof(&data).unwrap_err(), ZkVerifyError::ProofTooLarge);
    let at_limit = envelope(1, 6, 6, 4096, 4096);
    assert_eq!(deserialize_proof(&at_limit).unwrap().proof_bytes.len(), 4096);
}

#[test]
fn deserialize_keeps_input_bytes_in_order() {
    let mut data = vec![2u8];
    data.extend_from_slice(&8u32.to_le_bytes());
    for i in 0..8u8 {
        data.extend_from_slice(&[i; 32]);
    }
    data.extend_from_slice(&2u32.to_le_bytes());
    data.extend_from_slice(&[7, 9]);
    let proof = deserialize_proof(&data).unwrap();
    assert_eq!(proof.proof_type, ProofType::Fulfillment);
    for i in 0..8u8 {
        assert_eq!(proof.public_inputs[i as usize], [i; 32]);
    }
    assert_eq!(proof.proof_bytes, vec![7, 9]);
}

#[test]
fn verify_proof_reports_first_bad_input() {
    let mut inputs = vec![[0u8; 32]; 4];
    inputs[2][0] = 0x31;
    inputs[3][0] = 0xff;
    let proof = DeserializedProof { proof_type: ProofType::Funding, proof_bytes: vec![1u8; 64], public_inputs: inputs };
    let result = verify_proof(&proof);
    assert!(!result.valid);
    assert_eq!(result.public_input_count, 4);
    assert_eq!(result.error, Some(VerificationFailure::InvalidFieldElement { index: 2 }));
}

#[test]
fn verify_proof_accepts_well_formed_proof() {
    let proof = DeserializedProof { proof_type: ProofType::Validity, proof_bytes: vec![0u8; 64], public_inputs: vec![[0x30u8; 32]; 6] };
    let result = verify_proof(&proof);
    assert!(result.valid);
    assert_eq!(result.error, None);
    let missing = DeserializedProof { proof_type: ProofType::Fulfillment, proof_bytes: vec![0u8; 64], public_inputs: vec![[0u8; 32]; 7] };
    assert_eq!(verify_proof(&missing).error, Some(VerificationFailure::MissingPublicInputs { expected: 8, got: 7 }));
}

#[test]
fn typed_proof_helpers() {
    let ok = verify_funding_proof(&[0u8; 64], [0u8; 32], [1u8; 32], [2u8; 32]);
    assert_eq!(ok, Ok(true));
    let bad = verify_funding_proof(&[0u8; 64], [0x40u8; 32], [1u8; 32], [2u8; 32]);
    assert_eq!(bad, Err(ZkVerifyError::VerificationFailed));
    let short = verify_validity_proof(&[0u8; 10], [0u8; 32], ([0u8; 32], [0u8; 32]), [0u8; 32], 1, 2);
    assert_eq!(short, Err(ZkVerifyError::VerificationFailed));
    let valid = verify_validity_proof(&[0u8; 80], [0u8; 32], ([0u8; 32], [0u8; 32]), [0u8; 32], u64::MAX, 2);
    assert_eq!(valid, Ok(true));
    assert_eq!(ProofType::Validity.name(), "validity");
    assert_eq!(estimate_compute_units(ProofType::Fulfillment), 250_000);
}

#[test]
fn structural_verifier_behind_interface() {
    let verifier: &dyn ProofVerifier = &StructuralVerifier;
    let data = envelope(0, 3, 3, 64, 64);
    let proof = deserialize_proof(&data).unwrap();
    let result = verifier.verify(&proof);
    assert!(result.valid);
    assert_eq!(result.proof_type, ProofType::Funding);
    assert_eq!(result.public_input_count, 3);
}
