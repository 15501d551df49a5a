//! Format checks on commitment points as a ledger receives them: 33-byte
//! compressed encodings whose prefix selects the parity of y.
use vstd::prelude::*;

verus! {

/// Size of a compressed point, in bytes.
pub const POINT_SIZE: usize = 33;

/// Size of a scalar, in bytes.
pub const SCALAR_SIZE: usize = 32;

/// Why a commitment is refused.
#[derive(Debug, Clone, Copy, PartialEq, Eq, Structural)]
pub enum CommitmentError {
    /// The prefix is neither `0x02` nor `0x03`.
    InvalidPointFormat,
    /// The point is not on the curve.
    PointNotOnCurve,
    /// The scalar is zero or not below the curve order.
    InvalidScalar,
    /// An arithmetic overflow.
    Overflow,
    /// A curve operation failed.
    EcOperationFailed,
}

/// Whether an encoding has a compressed-point prefix.
pub open spec fn has_compressed_prefix(bytes: Seq<u8>) -> bool {
    bytes[0] == 2 || bytes[0] == 3
}

/// A commitment point in compressed form.
#[derive(Clone, Debug, PartialEq, Eq)]
pub struct CommitmentPoint {
    /// The compressed encoding.
    pub bytes: [u8; POINT_SIZE],
}

impl CommitmentPoint {
    /// Wraps an encoding whose prefix is `0x02` or `0x03`.
    pub fn from_bytes(bytes: [u8; POINT_SIZE]) -> (r: Result<Self, CommitmentError>)
        ensures
            has_compressed_prefix(bytes@) ==> (r matches Ok(p) && p.bytes@ == bytes@),
            !has_compressed_prefix(bytes@) ==> r == Err::<Self, CommitmentError>(CommitmentError::InvalidPointFormat),
    {
        if bytes[0] != 2 && bytes[0] != 3 {
            return Err(CommitmentError::InvalidPointFormat);
        }
        Ok(CommitmentPoint { bytes })
    }

    /// Whether the prefix is that of a compressed point; the curve equation is not checked.
    pub fn is_valid_format(&self) -> (r: bool)
        ensures
            r == has_compressed_prefix(self.bytes@),
    {
        self.bytes[0] == 2 || self.bytes[0] == 3
    }
}

/// Checks the format of a commitment before an opening is verified; the value and
/// blinding are not read.
pub fn verify_commitment_format(commitment: &[u8; POINT_SIZE], _value: u64, _blinding: &[u8; SCALAR_SIZE]) -> (r:
    Result<bool, CommitmentError>)
    ensures
        has_compressed_prefix(commitment@) ==> r == Ok::<bool, CommitmentError>(true),
        !has_compressed_prefix(commitment@) ==> r == Err::<bool, CommitmentError>(
            CommitmentError::InvalidPointFormat,
        ),
{
    if commitment[0] != 2 && commitment[0] != 3 {
        return Err(CommitmentError::InvalidPointFormat);
    }
    Ok(true)
}

/// Checks the format of the three points of a sum `c1 + c2 = c_sum`.
pub fn verify_commitment_sum(c1: &[u8; POINT_SIZE], c2: &[u8; POINT_SIZE], c_sum: &[u8; POINT_SIZE]) -> (r: Result<
    bool,
    CommitmentError,
>)
    ensures
        has_compressed_prefix(c1@) && has_compressed_prefix(c2@) && has_compressed_prefix(c_sum@) ==> r == Ok::<
            bool,
            CommitmentError,
        >(true),
        !(has_compressed_prefix(c1@) && has_compressed_prefix(c2@) && has_compressed_prefix(c_sum@)) ==> r
            == Err::<bool, CommitmentError>(CommitmentError::InvalidPointFormat),
{
    if c1[0] != 2 && c1[0] != 3 {
        return Err(CommitmentError::InvalidPointFormat);
    }
    if c2[0] != 2 && c2[0] != 3 {
        return Err(CommitmentError::InvalidPointFormat);
    }
    if c_sum[0] != 2 && c_sum[0] != 3 {
        return Err(CommitmentError::InvalidPointFormat);
    }
    Ok(true)
}

/// The stand-in point that `compute_commitment` lays out: prefix `0x02`, the value
/// little-endian in bytes 1 to 8, the first 8 bytes of the blinding in bytes 9 to 16,
/// zeros after.
pub open spec fn spec_stand_in_point(value: u64, blinding: Seq<u8>) -> Seq<u8> {
    Seq::new(
        33,
        |i: int|
            if i == 0 {
                2u8
            } else if i < 9 {
                ((value as int / crate::curve::pow256(i - 1)) % 256) as u8
            } else if i < 17 {
                blinding[i - 9]
            } else {
                0u8
            },
    )
}

/// The layout that stands in for `v·G + r·H` until curve arithmetic is available on
/// the ledger: it carries the value and part of the blinding, and is no commitment.
/// A blinding of all zeros is refused.
pub fn compute_commitment(value: u64, blinding: &[u8; SCALAR_SIZE]) -> (r: Result<[u8; POINT_SIZE], CommitmentError>)
    ensures
        (forall|i: int| 0 <= i < 32 ==> blinding@[i] == 0) ==> r == Err::<[u8; POINT_SIZE], CommitmentError>(
            CommitmentError::InvalidScalar,
        ),
        !(forall|i: int| 0 <= i < 32 ==> blinding@[i] == 0) ==> (r matches Ok(p) && p@ == spec_stand_in_point(
            value,
            blinding@,
        )),
{
    let mut all_zero = true;
    let mut k: usize = 0;
    while k < 32
        invariant
            k <= 32,
            all_zero == (forall|i: int| 0 <= i < k ==> blinding@[i] == 0),
        decreases 32 - k,
    {
        if blinding[k] != 0 {
            all_zero = false;
        }
        k = k + 1;
    }
    if all_zero {
        return Err(CommitmentError::InvalidScalar);
    }
    let mut result = [0u8; POINT_SIZE];
    result[0] = 2;
    let mut rest: u64 = value;
    let mut i: usize = 0;
    while i < 8
        invariant
            i <= 8,
            result@.len() == 33,
            result@[0] == 2,
            rest as int == value as int / crate::curve::pow256(i as int),
            forall|j: int| 1 <= j < 1 + i ==> result@[j] == spec_stand_in_point(value, blinding@)[j],
            forall|j: int| 1 + i <= j < 33 ==> result@[j] == 0,
        decreases 8 - i,
    {
        result[1 + i] = (rest % 256) as u8;
        proof {
            crate::curve::lemma_pow256_positive(i as int);
            assert(crate::curve::pow256(i + 1) == 256 * crate::curve::pow256(i as int));
            vstd::arithmetic::div_mod::lemma_div_denominator(value as int, crate::curve::pow256(i as int), 256);
        }
        rest = rest / 256;
        i = i + 1;
    }
    let mut j: usize = 0;
    while j < 8
        invariant
            j <= 8,
            result@.len() == 33,
            result@[0] == 2,
            forall|m: int| 1 <= m < 9 ==> result@[m] == spec_stand_in_point(value, blinding@)[m],
            forall|m: int| 9 <= m < 9 + j ==> result@[m] == blinding@[m - 9],
            forall|m: int| 9 + j <= m < 33 ==> result@[m] == 0,
        decreases 8 - j,
    {
        result[9 + j] = blinding[j];
        j = j + 1;
    }
    assert(result@ =~= spec_stand_in_point(value, blinding@));
    Ok(result)
}

} // verus!
