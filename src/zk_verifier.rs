//! The proof envelope: the byte layout that carries a proof type, its public
//! inputs and the opaque proof, and the structural checks made on it before a
//! cryptographic verifier is consulted.
//!
//! Layout: `[type:1][input_count:4 LE][inputs: input_count x 32][proof_len:4 LE][proof]`.
use vstd::prelude::*;
use crate::curve::{pow256, lemma_pow256_positive};

verus! {

/// Largest proof body accepted, in bytes.
pub const MAX_PROOF_SIZE: usize = 4096;

/// Largest number of public inputs accepted.
pub const MAX_PUBLIC_INPUTS: usize = 32;

/// Size of one public input (a field element), in bytes.
pub const FIELD_SIZE: usize = 32;

/// Shortest proof body that structural verification accepts, in bytes.
pub const MIN_PROOF_LEN: usize = 64;

/// The kinds of proof that the envelope can carry.
#[derive(Clone, Copy, PartialEq, Eq, Debug, Structural)]
pub enum ProofType {
    /// Balance at least a minimum, without revealing it.
    Funding,
    /// Authorisation of an intent, without revealing the sender.
    Validity,
    /// Correct execution, without revealing the path.
    Fulfillment,
}

/// The number of public inputs that each proof type needs.
pub open spec fn spec_expected_inputs(t: ProofType) -> nat {
    match t {
        ProofType::Funding => 3,
        ProofType::Validity => 6,
        ProofType::Fulfillment => 8,
    }
}

/// The proof type that a tag byte selects.
pub open spec fn spec_proof_type_of(tag: u8) -> Option<ProofType> {
    if tag == 0 {
        Some(ProofType::Funding)
    } else if tag == 1 {
        Some(ProofType::Validity)
    } else if tag == 2 {
        Some(ProofType::Fulfillment)
    } else {
        None
    }
}

impl ProofType {
    /// The number of public inputs that this proof type needs.
    pub fn expected_public_inputs(&self) -> (r: usize)
        ensures
            r == spec_expected_inputs(*self),
    {
        match self {
            ProofType::Funding => 3,
            ProofType::Validity => 6,
            ProofType::Fulfillment => 8,
        }
    }

    /// The proof type's name in lowercase.
    pub fn name(&self) -> (r: &'static str)
        ensures
            r@ == match *self {
                ProofType::Funding => "funding"@,
                ProofType::Validity => "validity"@,
                ProofType::Fulfillment => "fulfillment"@,
            },
    {
        match self {
            ProofType::Funding => "funding",
            ProofType::Validity => "validity",
            ProofType::Fulfillment => "fulfillment",
        }
    }

    /// The proof type that a tag byte selects, if any.
    pub fn try_from_u8(value: u8) -> (r: Option<ProofType>)
        ensures
            r == spec_proof_type_of(value),
    {
        match value {
            0 => Some(ProofType::Funding),
            1 => Some(ProofType::Validity),
            2 => Some(ProofType::Fulfillment),
            _ => None,
        }
    }
}

/// Why an envelope was refused.
#[derive(Debug, Clone, Copy, PartialEq, Eq, Structural)]
pub enum ZkVerifyError {
    /// The declared proof body is longer than `MAX_PROOF_SIZE`.
    ProofTooLarge,
    /// The buffer is empty or ends before a declared part.
    InvalidProofFormat,
    /// More than `MAX_PUBLIC_INPUTS` public inputs are declared.
    TooManyPublicInputs,
    /// A public input is malformed.
    InvalidPublicInput,
    /// The proof was checked and refused.
    VerificationFailed,
    /// The type tag names no known proof type.
    UnsupportedProofType,
    /// Fewer public inputs are declared than the proof type needs.
    MissingPublicInputs,
}

/// A proof taken out of its envelope.
#[derive(Clone, Debug)]
pub struct DeserializedProof {
    /// The proof type.
    pub proof_type: ProofType,
    /// The opaque proof body.
    pub proof_bytes: Vec<u8>,
    /// The public inputs, one field element of 32 bytes each.
    pub public_inputs: Vec<[u8; FIELD_SIZE]>,
}

/// The public inputs as byte strings.
pub open spec fn inputs_view(inputs: Seq<[u8; FIELD_SIZE]>) -> Seq<Seq<u8>> {
    inputs.map_values(|a: [u8; FIELD_SIZE]| a@)
}

impl DeserializedProof {
    /// The proof as plain values: type, public inputs and body.
    pub open spec fn model(&self) -> (ProofType, Seq<Seq<u8>>, Seq<u8>) {
        (self.proof_type, inputs_view(self.public_inputs@), self.proof_bytes@)
    }
}

/// The 32-bit little-endian integer at `off`.
pub open spec fn le_u32_at(data: Seq<u8>, off: int) -> int {
    data[off] as int + 256 * data[off + 1] as int + 65536 * data[off + 2] as int + 16777216
        * data[off + 3] as int
}

/// What `deserialize_proof` makes of a buffer: the proof as plain values, or why it is refused.
pub open spec fn spec_envelope(data: Seq<u8>) -> Result<
    (ProofType, Seq<Seq<u8>>, Seq<u8>),
    ZkVerifyError,
> {
    if data.len() == 0 {
        Err(ZkVerifyError::InvalidProofFormat)
    } else {
        match spec_proof_type_of(data[0]) {
            None => Err(ZkVerifyError::UnsupportedProofType),
            Some(t) => {
                if data.len() < 5 {
                    Err(ZkVerifyError::InvalidProofFormat)
                } else {
                    let k = le_u32_at(data, 1);
                    let body = 9 + 32 * k;
                    if k > MAX_PUBLIC_INPUTS {
                        Err(ZkVerifyError::TooManyPublicInputs)
                    } else if k < spec_expected_inputs(t) {
                        Err(ZkVerifyError::MissingPublicInputs)
                    } else if data.len() < body {
                        Err(ZkVerifyError::InvalidProofFormat)
                    } else {
                        let m = le_u32_at(data, body - 4);
                        if m > MAX_PROOF_SIZE {
                            Err(ZkVerifyError::ProofTooLarge)
                        } else if data.len() < body + m {
                            Err(ZkVerifyError::InvalidProofFormat)
                        } else {
                            Ok(
                                (
                                    t,
                                    Seq::new(
                                        k as nat,
                                        |i: int| data.subrange(5 + 32 * i, 5 + 32 * i + 32),
                                    ),
                                    data.subrange(body, body + m),
                                ),
                            )
                        }
                    }
                }
            },
        }
    }
}

fn read_u32_le(data: &[u8], off: usize) -> (r: u32)
    requires
        off + 4 <= data@.len(),
    ensures
        r == le_u32_at(data@, off as int),
{
    data[off] as u32 + 256 * (data[off + 1] as u32) + 65536 * (data[off + 2] as u32) + 16777216
        * (data[off + 3] as u32)
}

fn read_field(data: &[u8], off: usize) -> (r: [u8; FIELD_SIZE])
    requires
        off + 32 <= data@.len(),
    ensures
        r@ == data@.subrange(off as int, off + 32),
{
    let mut out = [0u8; FIELD_SIZE];
    let n = data.len();
    let mut j: usize = 0;
    while j < FIELD_SIZE
        invariant
            j <= 32,
            n == data@.len(),
            off + 32 <= data@.len(),
            out@.len() == 32,
            forall|i: int| 0 <= i < j ==> out@[i] == data@[off + i],
        decreases 32 - j,
    {
        out[j] = data[off + j];
        j = j + 1;
    }
    assert(out@ =~= data@.subrange(off as int, off + 32));
    out
}

/// Takes a proof out of its envelope, checking the layout strictly.
pub fn deserialize_proof(data: &[u8]) -> (r: Result<DeserializedProof, ZkVerifyError>)
    ensures
        match spec_envelope(data@) {
            Ok(m) => r is Ok && r->Ok_0.model() == m,
            Err(e) => r matches Err(e2) && e2 == e,
        },
{
    if data.len() == 0 {
        return Err(ZkVerifyError::InvalidProofFormat);
    }
    let proof_type = match ProofType::try_from_u8(data[0]) {
        Some(t) => t,
        None => return Err(ZkVerifyError::UnsupportedProofType),
    };
    if data.len() < 5 {
        return Err(ZkVerifyError::InvalidProofFormat);
    }
    let num_inputs = read_u32_le(data, 1) as usize;
    if num_inputs > MAX_PUBLIC_INPUTS {
        return Err(ZkVerifyError::TooManyPublicInputs);
    }
    if num_inputs < proof_type.expected_public_inputs() {
        return Err(ZkVerifyError::MissingPublicInputs);
    }
    let body = 9 + num_inputs * FIELD_SIZE;
    if data.len() < body {
        return Err(ZkVerifyError::InvalidProofFormat);
    }
    let mut public_inputs: Vec<[u8; FIELD_SIZE]> = Vec::new();
    let mut offset: usize = 5;
    let mut i: usize = 0;
    while i < num_inputs
        invariant
            i <= num_inputs <= 32,
            offset == 5 + 32 * i,
            body == 9 + 32 * num_inputs,
            body <= data@.len(),
            public_inputs@.len() == i,
            forall|j: int|
                0 <= j < i ==> #[trigger] public_inputs@[j]@ == data@.subrange(
                    5 + 32 * j,
                    5 + 32 * j + 32,
                ),
        decreases num_inputs - i,
    {
        let input = read_field(data, offset);
        public_inputs.push(input);
        offset = offset + FIELD_SIZE;
        i = i + 1;
    }
    let proof_len = read_u32_le(data, body - 4) as usize;
    if proof_len > MAX_PROOF_SIZE {
        return Err(ZkVerifyError::ProofTooLarge);
    }
    if data.len() < body + proof_len {
        return Err(ZkVerifyError::InvalidProofFormat);
    }
    let mut proof_bytes: Vec<u8> = Vec::new();
    let n = data.len();
    let mut p: usize = 0;
    while p < proof_len
        invariant
            p <= proof_len,
            n == data@.len(),
            body + proof_len <= data@.len(),
            proof_bytes@ =~= data@.subrange(body as int, body + p),
        decreases proof_len - p,
    {
        proof_bytes.push(data[body + p]);
        p = p + 1;
    }
    let proof = DeserializedProof { proof_type, proof_bytes, public_inputs };
    assert(inputs_view(proof.public_inputs@) =~= Seq::new(
        num_inputs as nat,
        |j: int| data@.subrange(5 + 32 * j, 5 + 32 * j + 32),
    ));
    Ok(proof)
}

/// Why structural verification refused a proof.
#[derive(Debug, Clone, Copy, PartialEq, Eq, Structural)]
pub enum VerificationFailure {
    /// The proof body is shorter than `MIN_PROOF_LEN`.
    ProofTooShort,
    /// Fewer public inputs than the proof type needs.
    MissingPublicInputs { expected: usize, got: usize },
    /// The public input at `index` is out of the field's range.
    InvalidFieldElement { index: usize },
}

/// The outcome of verifying a proof.
#[derive(Clone, Debug)]
pub struct VerificationResult {
    /// Whether the proof was accepted.
    pub valid: bool,
    /// The proof type that was checked.
    pub proof_type: ProofType,
    /// The number of public inputs that the proof carried.
    pub public_input_count: usize,
    /// Why the proof was refused, if it was.
    pub error: Option<VerificationFailure>,
}

/// The coarse field-range test on a public input: its high byte is below `0x31`.
pub open spec fn spec_valid_field_element(bytes: Seq<u8>) -> bool {
    bytes[0] < 0x31
}

/// Whether a public input passes the coarse range test on its high byte.
///
/// BN254's scalar field has a modulus just above `0x30` in its high byte, so
/// this admits every element of the field and some values above it.
pub fn is_valid_field_element(bytes: &[u8; FIELD_SIZE]) -> (r: bool)
    ensures
        r == spec_valid_field_element(bytes@),
{
    bytes[0] < 0x31
}

/// What structural verification says of a proof given as plain values:
/// `None` if it is accepted, else the first check that fails.
pub open spec fn spec_verification_failure(t: ProofType, inputs: Seq<Seq<u8>>, body: Seq<u8>) -> Option<
    VerificationFailure,
> {
    if body.len() < MIN_PROOF_LEN {
        Some(VerificationFailure::ProofTooShort)
    } else if inputs.len() < spec_expected_inputs(t) {
        Some(
            VerificationFailure::MissingPublicInputs {
                expected: spec_expected_inputs(t) as usize,
                got: inputs.len() as usize,
            },
        )
    } else if exists|i: int| 0 <= i < inputs.len() && !spec_valid_field_element(#[trigger] inputs[i]) {
        let i = choose|i: int|
            0 <= i < inputs.len() && !spec_valid_field_element(#[trigger] inputs[i]) && forall|j: int|
                0 <= j < i ==> spec_valid_field_element(#[trigger] inputs[j]);
        Some(VerificationFailure::InvalidFieldElement { index: i as usize })
    } else {
        None
    }
}

/// The first index of an input that fails the range test exists and is unique.
proof fn lemma_first_invalid(inputs: Seq<Seq<u8>>, k: int)
    requires
        0 <= k < inputs.len(),
        !spec_valid_field_element(inputs[k]),
        forall|j: int| 0 <= j < k ==> spec_valid_field_element(#[trigger] inputs[j]),
    ensures
        (choose|i: int|
            0 <= i < inputs.len() && !spec_valid_field_element(#[trigger] inputs[i]) && forall|j: int|
                0 <= j < i ==> spec_valid_field_element(#[trigger] inputs[j])) == k,
{
    let i = choose|i: int|
        0 <= i < inputs.len() && !spec_valid_field_element(#[trigger] inputs[i]) && forall|j: int|
            0 <= j < i ==> spec_valid_field_element(#[trigger] inputs[j]);
    assert(0 <= i < inputs.len() && !spec_valid_field_element(inputs[i]) && forall|j: int|
        0 <= j < i ==> spec_valid_field_element(#[trigger] inputs[j]));
    if i < k {
        assert(spec_valid_field_element(inputs[i]));
    }
    if k < i {
        assert(spec_valid_field_element(inputs[k]));
    }
}

/// Structural verification of a proof: length of the body, number of public
/// inputs and the range of each. No cryptographic check is made here.
pub fn verify_proof(proof: &DeserializedProof) -> (r: VerificationResult)
    ensures
        r.proof_type == proof.proof_type,
        r.public_input_count == proof.public_inputs@.len(),
        r.error == spec_verification_failure(proof.model().0, proof.model().1, proof.model().2),
        r.valid <==> r.error is None,
{
    let count = proof.public_inputs.len();
    let ghost m = proof.model();
    if proof.proof_bytes.len() < MIN_PROOF_LEN {
        return VerificationResult {
            valid: false,
            proof_type: proof.proof_type,
            public_input_count: count,
            error: Some(VerificationFailure::ProofTooShort),
        };
    }
    let expected = proof.proof_type.expected_public_inputs();
    if count < expected {
        return VerificationResult {
            valid: false,
            proof_type: proof.proof_type,
            public_input_count: count,
            error: Some(VerificationFailure::MissingPublicInputs { expected, got: count }),
        };
    }
    let mut i: usize = 0;
    while i < count
        invariant
            i <= count,
            count == proof.public_inputs@.len(),
            m == proof.model(),
            m.2.len() >= MIN_PROOF_LEN,
            m.1.len() >= spec_expected_inputs(m.0),
            forall|j: int| 0 <= j < i ==> spec_valid_field_element(#[trigger] m.1[j]),
        decreases count - i,
    {
        assert(m.1[i as int] == proof.public_inputs@[i as int]@);
        if !is_valid_field_element(&proof.public_inputs[i]) {
            proof {
                lemma_first_invalid(m.1, i as int);
                assert(!spec_valid_field_element(m.1[i as int]));
                assert(m.1.len() == count);
            }
            return VerificationResult {
                valid: false,
                proof_type: proof.proof_type,
                public_input_count: count,
                error: Some(VerificationFailure::InvalidFieldElement { index: i }),
            };
        }
        i = i + 1;
    }
    VerificationResult { valid: true, proof_type: proof.proof_type, public_input_count: count, error: None }
}

/// A verifier of proofs taken out of their envelope. Structural verification is one
/// such verifier; a cryptographic verifier is another, used behind the same interface.
pub trait ProofVerifier {
    /// Checks a proof; the result reports the proof's type and number of inputs,
    /// and a reason exactly when the proof is refused.
    fn verify(&self, proof: &DeserializedProof) -> (r: VerificationResult)
        ensures
            r.proof_type == proof.proof_type,
            r.public_input_count == proof.public_inputs@.len(),
            r.valid <==> r.error is None,
    ;
}

/// The verifier that makes the structural checks of `verify_proof` and nothing more.
#[derive(Clone, Copy, Debug)]
pub struct StructuralVerifier;

impl ProofVerifier for StructuralVerifier {
    fn verify(&self, proof: &DeserializedProof) -> (r: VerificationResult) {
        verify_proof(proof)
    }
}

/// Verifies a funding proof, whose public inputs are the commitment hash, the
/// minimum balance and the asset identifier.
pub fn verify_funding_proof(
    proof_bytes: &[u8],
    commitment_hash: [u8; FIELD_SIZE],
    minimum_required: [u8; FIELD_SIZE],
    asset_id: [u8; FIELD_SIZE],
) -> (r: Result<bool, ZkVerifyError>)
    ensures
        r == (if spec_verification_failure(
            ProofType::Funding,
            seq![commitment_hash@, minimum_required@, asset_id@],
            proof_bytes@,
        ) is None {
            Ok::<bool, ZkVerifyError>(true)
        } else {
            Err(ZkVerifyError::VerificationFailed)
        }),
{
    let mut inputs: Vec<[u8; FIELD_SIZE]> = Vec::new();
    inputs.push(commitment_hash);
    inputs.push(minimum_required);
    inputs.push(asset_id);
    let proof = DeserializedProof {
        proof_type: ProofType::Funding,
        proof_bytes: vstd::slice::slice_to_vec(proof_bytes),
        public_inputs: inputs,
    };
    assert(proof.model().1 =~= seq![commitment_hash@, minimum_required@, asset_id@]);
    let result = verify_proof(&proof);
    if result.valid {
        Ok(true)
    } else {
        Err(ZkVerifyError::VerificationFailed)
    }
}

/// A 64-bit integer as a field element: 24 zero bytes, then the value big-endian.
pub open spec fn spec_u64_field(v: u64) -> Seq<u8> {
    Seq::new(32, |i: int| if i < 24 { 0u8 } else { ((v as int / pow256(31 - i)) % 256) as u8 })
}

fn u64_field(v: u64) -> (r: [u8; FIELD_SIZE])
    ensures
        r@ == spec_u64_field(v),
{
    let mut out = [0u8; FIELD_SIZE];
    let mut rest: u64 = v;
    let mut i: usize = 32;
    while i > 24
        invariant
            24 <= i <= 32,
            out@.len() == 32,
            rest as int == v as int / pow256(32 - i),
            forall|j: int| 0 <= j < i ==> out@[j] == 0,
            forall|j: int| i <= j < 32 ==> out@[j] == spec_u64_field(v)[j],
        decreases i,
    {
        i = i - 1;
        out[i] = (rest % 256) as u8;
        proof {
            assert(pow256(32 - i) == 256 * pow256(31 - i));
            assert(pow256(31 - i) > 0) by {
                lemma_pow256_positive(31 - i);
            }
            vstd::arithmetic::div_mod::lemma_div_denominator(v as int, pow256(31 - i), 256);
        }
        rest = rest / 256;
    }
    assert(out@ =~= spec_u64_field(v));
    out
}

/// Verifies a validity proof, whose public inputs are the intent hash, the two
/// coordinates of the sender's commitment, the nullifier, the timestamp and the expiry.
pub fn verify_validity_proof(
    proof_bytes: &[u8],
    intent_hash: [u8; FIELD_SIZE],
    sender_commitment: ([u8; FIELD_SIZE], [u8; FIELD_SIZE]),
    nullifier: [u8; FIELD_SIZE],
    timestamp: u64,
    expiry: u64,
) -> (r: Result<bool, ZkVerifyError>)
    ensures
        r == (if spec_verification_failure(
            ProofType::Validity,
            seq![
                intent_hash@,
                sender_commitment.0@,
                sender_commitment.1@,
                nullifier@,
                spec_u64_field(timestamp),
                spec_u64_field(expiry),
            ],
            proof_bytes@,
        ) is None {
            Ok::<bool, ZkVerifyError>(true)
        } else {
            Err(ZkVerifyError::VerificationFailed)
        }),
{
    let timestamp_bytes = u64_field(timestamp);
    let expiry_bytes = u64_field(expiry);
    let mut inputs: Vec<[u8; FIELD_SIZE]> = Vec::new();
    inputs.push(intent_hash);
    inputs.push(sender_commitment.0);
    inputs.push(sender_commitment.1);
    inputs.push(nullifier);
    inputs.push(timestamp_bytes);
    inputs.push(expiry_bytes);
    let proof = DeserializedProof {
        proof_type: ProofType::Validity,
        proof_bytes: vstd::slice::slice_to_vec(proof_bytes),
        public_inputs: inputs,
    };
    assert(proof.model().1 =~= seq![
        intent_hash@,
        sender_commitment.0@,
        sender_commitment.1@,
        nullifier@,
        spec_u64_field(timestamp),
        spec_u64_field(expiry),
    ]);
    let result = verify_proof(&proof);
    if result.valid {
        Ok(true)
    } else {
        Err(ZkVerifyError::VerificationFailed)
    }
}

/// The stored verification key of one circuit.
#[derive(Clone, Debug)]
pub struct VerificationKeyAccount {
    /// The circuit that the key is for.
    pub circuit_type: ProofType,
    /// The verification key.
    pub key_bytes: Vec<u8>,
    /// Hash of the key, to check its integrity.
    pub key_hash: [u8; 32],
    /// The number of public inputs that the circuit takes.
    pub public_input_count: u8,
    /// Who may replace the key.
    pub authority: [u8; 32],
    /// Bump seed of the account's address.
    pub bump: u8,
}

/// Conservative compute-unit budget for verifying each proof type.
pub fn estimate_compute_units(proof_type: ProofType) -> (r: u32)
    ensures
        r == match proof_type {
            ProofType::Funding => 200_000u32,
            ProofType::Validity => 350_000u32,
            ProofType::Fulfillment => 250_000u32,
        },
{
    match proof_type {
        ProofType::Funding => 200_000,
        ProofType::Validity => 350_000,
        ProofType::Fulfillment => 250_000,
    }
}

} // verus!
