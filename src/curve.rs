//! secp256k1 group arithmetic, on canonical encodings.
//!
//! Points cross this module as 33-byte compressed SEC1 encodings and scalars as
//! 32-byte big-endian integers. The group is cyclic of prime order `n`, so every
//! point is `k·G` for one `k` in `[0, n)`; contracts speak of a point through
//! `sec1_point(k)`, the encoding of `k·G`, and so reduce group arithmetic to
//! arithmetic on integers modulo `n`. k256 also decodes SEC1's compact form
//! (`0x05` and x) as the even-y point; the contracts below say so, and the library
//! accepts only the prefixes `0x02` and `0x03` from its callers.
use vstd::prelude::*;
use k256::elliptic_curve::group::GroupEncoding;
use k256::elliptic_curve::sec1::ToEncodedPoint;
use k256::elliptic_curve::PrimeField;

verus! {

/// The order `n` of secp256k1's group.
pub open spec fn group_order() -> int {
    0xFFFF_FFFF_FFFF_FFFF_FFFF_FFFF_FFFF_FFFEu128 as int * (u128::MAX as int + 1)
        + 0xBAAE_DCE6_AF48_A03B_BFD2_5E8C_D036_4141u128 as int
}

/// The unsigned integer that bytes spell, most significant first.
pub open spec fn be_int(b: Seq<u8>) -> nat
    decreases b.len(),
{
    if b.len() == 0 {
        0
    } else {
        be_int(b.drop_last()) * 256 + b.last() as nat
    }
}

/// `256` to the power `e`.
pub open spec fn pow256(e: int) -> int
    decreases e,
{
    if e <= 0 {
        1
    } else {
        256 * pow256(e - 1)
    }
}

/// The `len` bytes that spell `x` modulo `256^len`, most significant first.
pub open spec fn be_bytes(x: int, len: nat) -> Seq<u8>
    decreases len,
{
    if len == 0 {
        Seq::empty()
    } else {
        be_bytes(x / 256, (len - 1) as nat).push((x % 256) as u8)
    }
}

/// The compressed SEC1 encoding of `k·G`, for `k` in `[0, n)`; the identity
/// (`k == 0`) encodes as 33 zero bytes.
pub uninterp spec fn sec1_point(k: int) -> [u8; 33];

/// The big-endian y-coordinate of `k·G`, for `k` in `[1, n)`.
pub uninterp spec fn sec1_y(k: int) -> [u8; 32];

/// Distinct group elements have distinct encodings, as SEC1 compression gives them.
pub open spec fn sec1_injective() -> bool {
    forall|i: int, j: int|
        0 <= i < group_order() && 0 <= j < group_order() && #[trigger] sec1_point(i) == #[trigger] sec1_point(j)
            ==> i == j
}

/// Whether bytes decode to a point of the group, the identity included.
pub open spec fn is_point(b: Seq<u8>) -> bool {
    exists|k: int| 0 <= k < group_order() && b == #[trigger] sec1_point(k)@
}

/// Whether bytes decode to a public key: a point other than the identity.
pub open spec fn is_public_key(b: Seq<u8>) -> bool {
    exists|k: int| 0 < k < group_order() && b == #[trigger] sec1_point(k)@
}

/// A compact encoding (`0x05` and x) read as the compressed encoding of the even-y
/// point with that x, which is how it decodes.
pub open spec fn compact_as_compressed(b: Seq<u8>) -> Seq<u8> {
    seq![2u8] + b.subrange(1, b.len() as int)
}

/// Whether bytes decode to a point: a canonical encoding, or a compact one.
pub open spec fn decodes_to_point(b: Seq<u8>) -> bool {
    is_point(b) || (b[0] == 5 && is_point(compact_as_compressed(b)))
}

/// Whether bytes decode to a public key: a canonical encoding, or a compact one.
pub open spec fn decodes_to_public_key(b: Seq<u8>) -> bool {
    is_public_key(b) || (b[0] == 5 && is_public_key(compact_as_compressed(b)))
}

/// Whether an encoding has the prefix of a compressed point, `0x02` or `0x03`.
pub open spec fn has_compressed_prefix(b: Seq<u8>) -> bool {
    b[0] == 2 || b[0] == 3
}

/// The discrete logarithm of a public key's encoding, in `[1, n)`.
pub open spec fn public_log(b: Seq<u8>) -> int {
    choose|k: int| 0 < k < group_order() && b == #[trigger] sec1_point(k)@
}

/// Whether bytes spell a secret key: a scalar in `[1, n)`.
pub open spec fn is_secret_scalar(b: Seq<u8>) -> bool {
    0 < be_int(b) < group_order()
}

/// Relies on k256's ProjectivePoint::GENERATOR and AffinePoint::to_bytes: the encoding of `G`.
#[verifier::external_body]
pub(crate) fn generator() -> (r: [u8; 33])
    ensures
        r@ == sec1_point(1)@,
{
    k256::ProjectivePoint::GENERATOR.to_affine().to_bytes().into()
}

/// Relies on k256's ProjectivePoint::IDENTITY and AffinePoint::to_bytes: the encoding
/// of the identity.
#[verifier::external_body]
pub(crate) fn identity() -> (r: [u8; 33])
    ensures
        r@ == sec1_point(0)@,
{
    k256::ProjectivePoint::IDENTITY.to_affine().to_bytes().into()
}

/// Relies on k256's `Scalar: From<u64>`, multiplication by the generator and
/// AffinePoint::to_bytes: the encoding of `v·G`.
#[verifier::external_body]
pub(crate) fn base_mul_u64(v: u64) -> (r: [u8; 33])
    ensures
        r@ == sec1_point(v as int)@,
{
    (k256::ProjectivePoint::GENERATOR * k256::Scalar::from(v)).to_affine().to_bytes().into()
}

/// Relies on k256's AffinePoint::from_bytes, point addition and AffinePoint::to_bytes:
/// `None` if either encoding does not decode, else the encoding of the sum.
#[verifier::external_body]
pub(crate) fn point_add(a: &[u8; 33], b: &[u8; 33]) -> (r: Option<[u8; 33]>)
    ensures
        r is Some <==> (decodes_to_point(a@) && decodes_to_point(b@)),
        forall|i: int, j: int|
            0 <= i < group_order() && 0 <= j < group_order() && a@ == #[trigger] sec1_point(i)@ && b@
                == #[trigger] sec1_point(j)@ ==> (r is Some && r->0@ == sec1_point((i + j) % group_order())@),
{
    let p: Option<k256::AffinePoint> = k256::AffinePoint::from_bytes(a.into()).into();
    let q: Option<k256::AffinePoint> = k256::AffinePoint::from_bytes(b.into()).into();
    let sum = k256::ProjectivePoint::from(p?) + q?;
    Some(sum.to_affine().to_bytes().into())
}

/// Relies on k256's AffinePoint::from_bytes, point subtraction and AffinePoint::to_bytes:
/// `None` if either encoding does not decode, else the encoding of the difference.
#[verifier::external_body]
pub(crate) fn point_sub(a: &[u8; 33], b: &[u8; 33]) -> (r: Option<[u8; 33]>)
    ensures
        r is Some <==> (decodes_to_point(a@) && decodes_to_point(b@)),
        forall|i: int, j: int|
            0 <= i < group_order() && 0 <= j < group_order() && a@ == #[trigger] sec1_point(i)@ && b@
                == #[trigger] sec1_point(j)@ ==> (r is Some && r->0@ == sec1_point((i - j) % group_order())@),
{
    let p: Option<k256::AffinePoint> = k256::AffinePoint::from_bytes(a.into()).into();
    let q: Option<k256::AffinePoint> = k256::AffinePoint::from_bytes(b.into()).into();
    let diff = k256::ProjectivePoint::from(p?) - q?;
    Some(diff.to_affine().to_bytes().into())
}

/// Relies on k256's AffinePoint::from_bytes and point equality: `None` if either
/// encoding does not decode, else whether the two points are the same.
#[verifier::external_body]
pub(crate) fn point_eq(a: &[u8; 33], b: &[u8; 33]) -> (r: Option<bool>)
    ensures
        r is Some <==> (decodes_to_point(a@) && decodes_to_point(b@)),
        forall|i: int, j: int|
            0 <= i < group_order() && 0 <= j < group_order() && a@ == #[trigger] sec1_point(i)@ && b@
                == #[trigger] sec1_point(j)@ ==> r == Some(i == j),
{
    let p: Option<k256::AffinePoint> = k256::AffinePoint::from_bytes(a.into()).into();
    let q: Option<k256::AffinePoint> = k256::AffinePoint::from_bytes(b.into()).into();
    Some(p? == q?)
}

/// Relies on k256's Scalar::from_repr_vartime, multiplication by the generator and
/// AffinePoint::to_bytes: `None` if the scalar is not below `n`, else the encoding of `s·G`.
#[verifier::external_body]
pub(crate) fn base_mul(s: &[u8; 32]) -> (r: Option<[u8; 33]>)
    ensures
        r is Some <==> be_int(s@) < group_order(),
        r matches Some(c) ==> c@ == sec1_point(be_int(s@) as int)@,
{
    let k = k256::Scalar::from_repr_vartime((*s).into())?;
    Some((k256::ProjectivePoint::GENERATOR * k).to_affine().to_bytes().into())
}

/// Relies on k256's AffinePoint::from_bytes, Scalar::from_repr_vartime, scalar
/// multiplication and AffinePoint::to_bytes: `None` if the point does not decode or
/// the scalar is not below `n`, else the encoding of `s·P`.
#[verifier::external_body]
pub(crate) fn point_mul(p: &[u8; 33], s: &[u8; 32]) -> (r: Option<[u8; 33]>)
    ensures
        r is Some <==> (decodes_to_point(p@) && be_int(s@) < group_order()),
        forall|i: int|
            0 <= i < group_order() && p@ == #[trigger] sec1_point(i)@ && be_int(s@) < group_order()
                ==> (r is Some && r->0@ == sec1_point((i * be_int(s@)) % group_order())@),
{
    let q: Option<k256::AffinePoint> = k256::AffinePoint::from_bytes(p.into()).into();
    let k = k256::Scalar::from_repr_vartime((*s).into())?;
    Some((k256::ProjectivePoint::from(q?) * k).to_affine().to_bytes().into())
}

/// Relies on k256's Scalar::from_repr_vartime, scalar addition and Scalar::to_bytes:
/// `None` if either scalar is not below `n`, else their sum modulo `n`.
#[verifier::external_body]
pub(crate) fn scalar_add(a: &[u8; 32], b: &[u8; 32]) -> (r: Option<[u8; 32]>)
    ensures
        r is Some <==> (be_int(a@) < group_order() && be_int(b@) < group_order()),
        r matches Some(c) ==> c@ == be_bytes((be_int(a@) + be_int(b@)) as int % group_order(), 32),
{
    let x = k256::Scalar::from_repr_vartime((*a).into())?;
    let y = k256::Scalar::from_repr_vartime((*b).into())?;
    Some((x + y).to_bytes().into())
}

/// Relies on k256's Scalar::from_repr_vartime, scalar subtraction and Scalar::to_bytes:
/// `None` if either scalar is not below `n`, else their difference modulo `n`.
#[verifier::external_body]
pub(crate) fn scalar_sub(a: &[u8; 32], b: &[u8; 32]) -> (r: Option<[u8; 32]>)
    ensures
        r is Some <==> (be_int(a@) < group_order() && be_int(b@) < group_order()),
        r matches Some(c) ==> c@ == be_bytes((be_int(a@) as int - be_int(b@) as int) % group_order(), 32),
{
    let x = k256::Scalar::from_repr_vartime((*a).into())?;
    let y = k256::Scalar::from_repr_vartime((*b).into())?;
    Some((x - y).to_bytes().into())
}

/// Relies on k256's Scalar::from_repr_vartime: whether the bytes are a canonical
/// scalar, that is below `n`.
#[verifier::external_body]
pub(crate) fn scalar_below_order(s: &[u8; 32]) -> (r: bool)
    ensures
        r == (be_int(s@) < group_order()),
{
    bool::from(k256::Scalar::from_repr_vartime((*s).into()).is_some())
}

/// Relies on k256's PublicKey::from_sec1_bytes: whether the bytes decode to a point
/// other than the identity. SEC1's compact form (`0x05` and x) decodes too; a
/// canonical public key has the prefix `0x02` or `0x03`.
#[verifier::external_body]
pub(crate) fn public_key_ok(p: &[u8; 33]) -> (r: bool)
    ensures
        r == decodes_to_public_key(p@),
        (r && has_compressed_prefix(p@)) == is_public_key(p@),
{
    k256::PublicKey::from_sec1_bytes(p).is_ok()
}

/// Relies on k256's `Scalar: Reduce<U256>` and Scalar::to_bytes: the bytes read as an
/// integer, reduced modulo `n`.
#[verifier::external_body]
pub(crate) fn scalar_reduce(s: &[u8; 32]) -> (r: [u8; 32])
    ensures
        r@ == be_bytes(be_int(s@) as int % group_order(), 32),
{
    let bytes: k256::FieldBytes = (*s).into();
    <k256::Scalar as k256::elliptic_curve::ops::Reduce<k256::U256>>::reduce_bytes(&bytes).to_bytes().into()
}

/// Relies on k256's SecretKey::from_slice, PublicKey::from_sec1_bytes and
/// ecdh::diffie_hellman: the x-coordinate of `s·P`, or `None` if the secret is not in
/// `[1, n)` or the public key does not decode.
#[verifier::external_body]
pub(crate) fn ecdh_x(s: &[u8; 32], p: &[u8; 33]) -> (r: Option<[u8; 32]>)
    ensures
        r is Some <==> (is_secret_scalar(s@) && decodes_to_public_key(p@)),
        forall|i: int|
            0 < i < group_order() && p@ == #[trigger] sec1_point(i)@ && is_secret_scalar(s@)
                ==> (r is Some && r->0@ == sec1_point((i * be_int(s@)) % group_order())@.subrange(1, 33)),
{
    let secret = k256::SecretKey::from_slice(s).ok()?;
    let public = k256::PublicKey::from_sec1_bytes(p).ok()?;
    let shared = k256::ecdh::diffie_hellman(secret.to_nonzero_scalar(), public.as_affine());
    Some((*shared.raw_secret_bytes()).into())
}

/// Relies on k256's AffinePoint::from_bytes and ToEncodedPoint (uncompressed): the
/// y-coordinate of a point, or `None` for the identity or bytes that do not decode.
#[verifier::external_body]
pub(crate) fn point_y(p: &[u8; 33]) -> (r: Option<[u8; 32]>)
    ensures
        r is Some <==> decodes_to_public_key(p@),
        forall|i: int|
            0 < i < group_order() && p@ == #[trigger] sec1_point(i)@ ==> (r is Some && r->0@ == sec1_y(i)@),
{
    let q: Option<k256::AffinePoint> = k256::AffinePoint::from_bytes(p.into()).into();
    let encoded = q?.to_encoded_point(false);
    Some((*encoded.y()?).into())
}

/// Relies on k256's SecretKey::random over the operating system's generator: a fresh
/// secret scalar in `[1, n)`, big-endian.
#[verifier::external_body]
pub(crate) fn random_secret() -> (r: [u8; 32])
    ensures
        is_secret_scalar(r@),
{
    k256::SecretKey::random(&mut rand::rngs::OsRng).to_bytes().into()
}

/// `be_bytes` gives as many bytes as asked for.
pub proof fn lemma_be_bytes_len(x: int, len: nat)
    ensures
        be_bytes(x, len).len() == len,
    decreases len,
{
    if len > 0 {
        lemma_be_bytes_len(x / 256, (len - 1) as nat);
    }
}

/// Powers of 256 are positive.
pub proof fn lemma_pow256_positive(e: int)
    ensures
        pow256(e) > 0,
    decreases e,
{
    if e > 0 {
        lemma_pow256_positive(e - 1);
    }
}

/// Spelling a value in bytes and reading it back gives the value.
pub proof fn lemma_be_round_trip(x: int, len: nat)
    requires
        0 <= x < pow256(len as int),
    ensures
        be_int(be_bytes(x, len)) == x,
        be_bytes(x, len).len() == len,
    decreases len,
{
    lemma_be_bytes_len(x, len);
    if len > 0 {
        let s = be_bytes(x / 256, (len - 1) as nat);
        assert(x / 256 < pow256(len - 1)) by {
            lemma_pow256_positive(len - 1);
            vstd::arithmetic::div_mod::lemma_div_is_ordered_by_denominator(x, 256, 256);
            vstd::arithmetic::div_mod::lemma_div_by_multiple_is_strongly_ordered(x, 256 * pow256(len - 1), pow256(len - 1), 256);
        }
        lemma_be_round_trip(x / 256, (len - 1) as nat);
        assert(be_bytes(x, len).drop_last() =~= s);
    } else {
        assert(x == 0);
    }
}

/// A byte string reads as zero exactly when every byte is zero.
pub proof fn lemma_be_zero(b: Seq<u8>)
    ensures
        be_int(b) == 0 <==> forall|i: int| 0 <= i < b.len() ==> b[i] == 0,
    decreases b.len(),
{
    if b.len() > 0 {
        lemma_be_zero(b.drop_last());
        if be_int(b) == 0 {
            assert forall|i: int| 0 <= i < b.len() implies b[i] == 0 by {
                if i < b.len() - 1 {
                    assert(b.drop_last()[i] == b[i]);
                }
            }
        }
        if forall|i: int| 0 <= i < b.len() ==> b[i] == 0 {
            assert forall|i: int| 0 <= i < b.drop_last().len() implies b.drop_last()[i] == 0 by {
                assert(b.drop_last()[i] == b[i]);
            }
        }
    }
}

/// The group order is below `256^32`, so every scalar fits in 32 bytes.
pub proof fn lemma_order_fits_32_bytes()
    ensures
        group_order() < pow256(32),
{
    reveal_with_fuel(pow256, 33);
}

} // verus!
