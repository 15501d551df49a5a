//! Pedersen commitments `C = v·G + r·H` on secp256k1.
//!
//! `H` is derived by a nothing-up-my-sleeve search, so nobody knows its
//! discrete logarithm to base `G`. Commitments, blinding factors and points
//! cross this module as `0x`-prefixed hex text.
use vstd::prelude::*;
use crate::crypto::{
    bytes_to_hex, hex_text, hex_to_bytes, lemma_hex_round_trip, parse_hex, random_bytes, sha256,
    sha256_of,
};
use crate::curve::{
    base_mul_u64, be_bytes, be_int, generator, group_order, has_compressed_prefix, identity,
    is_point, is_public_key, public_key_ok, public_log, scalar_reduce,
    lemma_be_round_trip, lemma_be_zero, lemma_order_fits_32_bytes, sec1_injective, point_add, point_eq, point_mul, point_sub, point_y,
    scalar_add, scalar_below_order, scalar_sub, sec1_point, sec1_y,
};
use crate::error::Error;

verus! {

/// The domain tag of the search for `H`, as bytes.
pub open spec fn h_domain() -> Seq<u8> {
    seq![
        83u8, 73, 80, 45, 80, 69, 68, 69, 82, 83, 69, 78, 45, 71, 69, 78, 69, 82, 65, 84, 79, 82,
        45, 72, 45, 118, 49,
    ]
}

/// The decimal digits of `n`, as ASCII bytes.
pub open spec fn decimal(n: nat) -> Seq<u8>
    decreases n,
{
    if n < 10 {
        seq![(48 + n) as u8]
    } else {
        decimal(n / 10) + seq![(48 + n % 10) as u8]
    }
}

/// The hash input of the search's attempt `counter`: `<domain tag>:<counter>`.
pub open spec fn h_attempt_input(counter: nat) -> Seq<u8> {
    h_domain() + seq![58u8] + decimal(counter)
}

/// The candidate encoding of attempt `counter`: even-y prefix and the digest as x.
pub open spec fn h_candidate(counter: nat) -> Seq<u8> {
    seq![2u8] + sha256_of(h_attempt_input(counter))@
}

/// Whether attempt `counter` gives a point other than the identity and `G`.
pub open spec fn h_accepts(counter: nat) -> bool {
    exists|k: int| 2 <= k < group_order() && h_candidate(counter) == #[trigger] sec1_point(k)@
}

/// The first accepted candidate among attempts `counter` to 255.
pub open spec fn h_search_from(counter: nat) -> Option<Seq<u8>>
    decreases 256 - counter,
{
    if counter >= 256 {
        None
    } else if h_accepts(counter) {
        Some(h_candidate(counter))
    } else {
        h_search_from(counter + 1)
    }
}

/// The generator `H`: the first accepted candidate of the search, if any.
pub open spec fn h_generator() -> Option<Seq<u8>> {
    h_search_from(0)
}

/// The discrete logarithm of `H` to base `G`, which no one knows.
pub open spec fn h_log() -> int {
    choose|k: int| 2 <= k < group_order() && h_generator() == Some(#[trigger] sec1_point(k)@)
}

/// The discrete logarithm of `v·G + r·H`.
pub open spec fn commitment_log(v: int, r: int) -> int {
    (v + r * h_log()) % group_order()
}

/// The encoding of `v·G + r·H`.
pub open spec fn commitment_point(v: int, r: int) -> Seq<u8> {
    sec1_point(commitment_log(v, r))@
}

/// The scalar that 32 blinding bytes give: their integer reduced modulo `n`.
pub open spec fn blinding_scalar(b: Seq<u8>) -> int {
    be_int(b) as int % group_order()
}

/// Whether bytes are a usable blinding factor: 32 bytes that do not reduce to zero.
pub open spec fn is_blinding(b: Seq<u8>) -> bool {
    b.len() == 32 && blinding_scalar(b) != 0
}

/// The search finds a point that is neither the identity nor `G`.
proof fn lemma_h_search(counter: nat)
    ensures
        h_search_from(counter) matches Some(h) ==> exists|k: int|
            2 <= k < group_order() && h == #[trigger] sec1_point(k)@,
    decreases 256 - counter,
{
    if counter < 256 && !h_accepts(counter) {
        lemma_h_search(counter + 1);
    }
}

/// The independent generator `H` is neither the identity nor `G`: when the search
/// finds it, it is `k·G` for some `k` other than 0 and 1.
pub proof fn lemma_h_independent()
    ensures
        h_generator() matches Some(h) ==> (2 <= h_log() < group_order() && h == sec1_point(h_log())@),
{
    lemma_h_search(0);
}

/// Determinism: `H` is a function of the domain tag alone, so every derivation
/// gives the same bytes.
pub proof fn lemma_h_deterministic(a: Seq<u8>, b: Seq<u8>)
    requires
        h_generator() == Some(a),
        h_generator() == Some(b),
    ensures
        a == b,
{
}

fn domain_bytes() -> (r: Vec<u8>)
    ensures
        r@ == h_domain(),
{
    let r = vec![
        83u8, 73, 80, 45, 80, 69, 68, 69, 82, 83, 69, 78, 45, 71, 69, 78, 69, 82, 65, 84, 79, 82,
        45, 72, 45, 118, 49,
    ];
    assert(r@ =~= h_domain());
    r
}

fn attempt_input(counter: u8) -> (r: Vec<u8>)
    ensures
        r@ == h_attempt_input(counter as nat),
{
    let mut input = domain_bytes();
    input.push(58u8);
    let ghost c = counter as nat;
    if counter < 10 {
        input.push(48u8 + counter);
        assert(decimal(c) =~= seq![(48 + c) as u8]);
    } else if counter < 100 {
        input.push(48u8 + counter / 10);
        input.push(48u8 + counter % 10);
        assert(decimal(c / 10) =~= seq![(48 + c / 10) as u8]);
        assert(decimal(c) == decimal(c / 10) + seq![(48 + c % 10) as u8]);
    } else {
        input.push(48u8 + counter / 100);
        input.push(48u8 + (counter / 10) % 10);
        input.push(48u8 + counter % 10);
        assert(decimal(c / 10 / 10) =~= seq![(48 + c / 10 / 10) as u8]);
        assert(c / 10 / 10 == c / 100);
        assert(decimal(c / 10) == decimal(c / 10 / 10) + seq![(48 + (c / 10) % 10) as u8]);
        assert(decimal(c) == decimal(c / 10) + seq![(48 + c % 10) as u8]);
    }
    assert(input@ =~= h_attempt_input(c));
    input
}

/// Derives the generator `H`: for counters 0 to 255, hashes `<domain tag>:<counter>`
/// with SHA-256, reads the digest as the x-coordinate of an even-y point and keeps
/// the first candidate that decodes to a point other than the identity and `G`.
pub fn generate_h() -> (r: Option<[u8; 33]>)
    ensures
        match h_generator() {
            Some(h) => r is Some && r->0@ == h,
            None => r is None,
        },
{
    let g = generator();
    let id = identity();
    let mut counter: u16 = 0;
    while counter < 256
        invariant
            counter <= 256,
            g@ == sec1_point(1)@,
            id@ == sec1_point(0)@,
            h_generator() == h_search_from(counter as nat),
        decreases 256 - counter,
    {
        let input = attempt_input(counter as u8);
        let digest = sha256(input.as_slice());
        let mut candidate = [2u8; 33];
        let mut j: usize = 0;
        while j < 32
            invariant
                j <= 32,
                candidate[0] == 2u8,
                forall|i: int| 0 <= i < j ==> candidate@[i + 1] == digest@[i],
            decreases 32 - j,
        {
            candidate[j + 1] = digest[j];
            j = j + 1;
        }
        assert(candidate@ =~= h_candidate(counter as nat));
        let is_identity = point_eq(&candidate, &id);
        let is_g = point_eq(&candidate, &g);
        match (is_identity, is_g) {
            (Some(false), Some(false)) => {
                proof {
                    let k = choose|k: int| 0 <= k < group_order() && candidate@ == #[trigger] sec1_point(k)@;
                    assert(h_accepts(counter as nat));
                }
                return Some(candidate);
            },
            _ => {
                proof {
                    if h_accepts(counter as nat) {
                        let k = choose|k: int| 2 <= k < group_order() && h_candidate(counter as nat) == #[trigger] sec1_point(k)@;
                        assert(0 <= k < group_order());
                        assert(is_point(candidate@));
                    }
                }
            },
        }
        counter = counter + 1;
    }
    None
}

/// The order of the group is larger than any `u64`.
pub proof fn lemma_order_exceeds_u64()
    ensures
        group_order() > u64::MAX,
{
}

/// A pair of hex texts as plain values.
pub open spec fn pair_view(r: Result<(String, String), Error>) -> Result<(Seq<char>, Seq<char>), Error> {
    match r {
        Ok((a, b)) => Ok((a@, b@)),
        Err(e) => Err(e),
    }
}

/// A hex text as plain value.
pub open spec fn text_view(r: Result<String, Error>) -> Result<Seq<char>, Error> {
    match r {
        Ok(a) => Ok(a@),
        Err(e) => Err(e),
    }
}

/// What `commit_with_blinding` returns: the commitment and the reduced blinding scalar
/// as hex text, or `CryptoError` for a blinding that is not 32 bytes or reduces to zero.
pub open spec fn spec_commit_with_blinding(value: u64, blinding: Seq<u8>) -> Result<
    (Seq<char>, Seq<char>),
    Error,
> {
    if !is_blinding(blinding) || h_generator() is None {
        Err(Error::CryptoError)
    } else {
        Ok(
            (
                hex_text(commitment_point(value as int, blinding_scalar(blinding))),
                hex_text(be_bytes(blinding_scalar(blinding), 32)),
            ),
        )
    }
}

pub(crate) fn to_array32(s: &[u8]) -> (r: [u8; 32])
    requires
        s@.len() == 32,
    ensures
        r@ == s@,
{
    let mut out = [0u8; 32];
    let mut i: usize = 0;
    while i < 32
        invariant
            i <= 32,
            s@.len() == 32,
            forall|j: int| 0 <= j < i ==> out@[j] == s@[j],
        decreases 32 - i,
    {
        out[i] = s[i];
        i = i + 1;
    }
    assert(out@ =~= s@);
    out
}

pub(crate) fn to_array33(s: &[u8]) -> (r: [u8; 33])
    requires
        s@.len() == 33,
    ensures
        r@ == s@,
{
    let mut out = [0u8; 33];
    let mut i: usize = 0;
    while i < 33
        invariant
            i <= 33,
            s@.len() == 33,
            forall|j: int| 0 <= j < i ==> out@[j] == s@[j],
        decreases 33 - i,
    {
        out[i] = s[i];
        i = i + 1;
    }
    assert(out@ =~= s@);
    out
}

pub(crate) fn is_zero_scalar(b: &[u8; 32]) -> (r: bool)
    ensures
        r == (be_int(b@) == 0),
{
    proof {
        lemma_be_zero(b@);
    }
    let mut i: usize = 0;
    while i < 32
        invariant
            i <= 32,
            forall|j: int| 0 <= j < i ==> b@[j] == 0,
        decreases 32 - i,
    {
        if b[i] != 0 {
            proof {
                lemma_be_zero(b@);
                assert(b@[i as int] != 0);
            }
            return false;
        }
        i = i + 1;
    }
    true
}

/// `v·G + r·H` from the encoding of `H` and a scalar `r` below `n`.
fn combine(value: u64, h: &[u8; 33], r: &[u8; 32]) -> (c: [u8; 33])
    requires
        h_generator() == Some(h@),
        be_int(r@) < group_order(),
    ensures
        c@ == commitment_point(value as int, be_int(r@) as int),
{
    proof {
        lemma_h_independent();
        lemma_order_exceeds_u64();
    }
    let ghost n = group_order();
    let ghost rv = be_int(r@) as int;
    let rh = match point_mul(h, r) {
        Some(p) => p,
        None => {
            assert(false);
            return *h;
        },
    };
    assert(rh@ == sec1_point((h_log() * rv) % n)@);
    assert(h_log() * rv == rv * h_log()) by (nonlinear_arith);
    if value == 0 {
        assert((0 + rv * h_log()) % n == (rv * h_log()) % n);
        rh
    } else {
        let vg = base_mul_u64(value);
        proof {
            vstd::arithmetic::div_mod::lemma_mod_bound(h_log() * rv, n);
            vstd::arithmetic::div_mod::lemma_add_mod_noop_right(value as int, rv * h_log(), n);
        }
        match point_add(&vg, &rh) {
            Some(p) => p,
            None => {
                assert(false);
                *h
            },
        }
    }
}

/// Commits to `value` under a caller-supplied blinding factor, reduced modulo `n`:
/// `C = v·G + r·H`.
pub fn commit_with_blinding(value: u64, blinding: &[u8]) -> (r: Result<(String, String), Error>)
    ensures
        pair_view(r) == spec_commit_with_blinding(value, blinding@),
{
    if blinding.len() != 32 {
        return Err(Error::CryptoError);
    }
    let b = scalar_reduce(&to_array32(blinding));
    proof {
        lemma_order_fits_32_bytes();
        vstd::arithmetic::div_mod::lemma_mod_bound(be_int(blinding@) as int, group_order());
        lemma_be_round_trip(blinding_scalar(blinding@), 32);
    }
    if is_zero_scalar(&b) {
        return Err(Error::CryptoError);
    }
    let h = match generate_h() {
        Some(h) => h,
        None => return Err(Error::CryptoError),
    };
    let c = combine(value, &h, &b);
    Ok((bytes_to_hex(&c), bytes_to_hex(&b)))
}

/// Commits to `value` under a fresh random blinding factor.
pub fn commit(value: u64) -> (r: Result<(String, String), Error>)
    ensures
        exists|b: Seq<u8>| b.len() == 32 && pair_view(r) == spec_commit_with_blinding(value, b),
{
    let b = random_bytes(32);
    commit_with_blinding(value, b.as_slice())
}

/// Commits to zero: `C = r·H`.
pub fn commit_zero(blinding: &[u8]) -> (r: Result<(String, String), Error>)
    ensures
        pair_view(r) == spec_commit_with_blinding(0, blinding@),
{
    commit_with_blinding(0, blinding)
}

/// What `verify_opening` returns: whether the commitment is `v·G + r·H`, or why the
/// inputs are refused.
pub open spec fn spec_verify_opening(commitment: Seq<char>, value: u64, blinding: Seq<char>) -> Result<
    bool,
    Error,
> {
    match parse_hex(commitment) {
        None => Err(Error::InvalidHex),
        Some(c) => match parse_hex(blinding) {
            None => Err(Error::InvalidHex),
            Some(b) => if c.len() != 33 || !is_public_key(c) {
                Err(Error::InvalidPublicKey)
            } else if b.len() != 32 || be_int(b) >= group_order() || h_generator() is None {
                Err(Error::CryptoError)
            } else {
                Ok(c == commitment_point(value as int, be_int(b) as int))
            },
        },
    }
}

/// Whether a commitment opens to `value` under `blinding`: recomputes `v·G + r·H`
/// and compares points.
pub fn verify_opening(commitment: &str, value: u64, blinding: &str) -> (r: Result<bool, Error>)
    ensures
        r == spec_verify_opening(commitment@, value, blinding@),
{
    let c_bytes = match hex_to_bytes(commitment) {
        Ok(v) => v,
        Err(e) => return Err(e),
    };
    let b_bytes = match hex_to_bytes(blinding) {
        Ok(v) => v,
        Err(e) => return Err(e),
    };
    if c_bytes.len() != 33 {
        return Err(Error::InvalidPublicKey);
    }
    let c = to_array33(c_bytes.as_slice());
    let c_ok = public_key_ok(&c);
    if !(c_ok && (c[0] == 2 || c[0] == 3)) {
        return Err(Error::InvalidPublicKey);
    }
    if b_bytes.len() != 32 {
        return Err(Error::CryptoError);
    }
    let b = to_array32(b_bytes.as_slice());
    if !scalar_below_order(&b) {
        return Err(Error::CryptoError);
    }
    let h = match generate_h() {
        Some(h) => h,
        None => return Err(Error::CryptoError),
    };
    let expected = combine(value, &h, &b);
    let ghost k = commitment_log(value as int, be_int(b@) as int);
    proof {
        vstd::arithmetic::div_mod::lemma_mod_bound(value as int + be_int(b@) * h_log(), group_order());
    }
    match point_eq(&c, &expected) {
        Some(same) => {
            proof {
                let i = choose|i: int| 0 <= i < group_order() && c@ == #[trigger] sec1_point(i)@;
                assert(same == (i == k));
                if c@ == sec1_point(k)@ {
                    assert(same == (k == k));
                }
            }
            Ok(same)
        },
        None => Err(Error::CryptoError),
    }
}

/// What `add_commitments` and `subtract_commitments` return, given the combined
/// discrete logarithm: the combined point, or why the inputs are refused.
pub open spec fn spec_combine_commitments(c1: Seq<char>, c2: Seq<char>, add: bool) -> Result<Seq<char>, Error> {
    match parse_hex(c1) {
        None => Err(Error::InvalidHex),
        Some(a) => match parse_hex(c2) {
            None => Err(Error::InvalidHex),
            Some(b) => if a.len() != 33 || !is_public_key(a) || b.len() != 33 || !is_public_key(b) {
                Err(Error::InvalidPublicKey)
            } else if add {
                Ok(hex_text(sec1_point((public_log(a) + public_log(b)) % group_order())@))
            } else {
                Ok(hex_text(sec1_point((public_log(a) - public_log(b)) % group_order())@))
            },
        },
    }
}

fn combine_commitments(c1: &str, c2: &str, add: bool) -> (r: Result<String, Error>)
    ensures
        text_view(r) == spec_combine_commitments(c1@, c2@, add),
{
    let a_bytes = match hex_to_bytes(c1) {
        Ok(v) => v,
        Err(e) => return Err(e),
    };
    let b_bytes = match hex_to_bytes(c2) {
        Ok(v) => v,
        Err(e) => return Err(e),
    };
    if a_bytes.len() != 33 || b_bytes.len() != 33 {
        return Err(Error::InvalidPublicKey);
    }
    let a = to_array33(a_bytes.as_slice());
    let b = to_array33(b_bytes.as_slice());
    let a_ok = public_key_ok(&a);
    let b_ok = public_key_ok(&b);
    if !(a_ok && (a[0] == 2 || a[0] == 3)) || !(b_ok && (b[0] == 2 || b[0] == 3)) {
        return Err(Error::InvalidPublicKey);
    }
    let ghost i = public_log(a@);
    let ghost j = public_log(b@);
    let combined = if add {
        point_add(&a, &b)
    } else {
        point_sub(&a, &b)
    };
    match combined {
        Some(p) => Ok(bytes_to_hex(&p)),
        None => Err(Error::InvalidPublicKey),
    }
}

/// Adds two commitments: `C1 + C2` commits to `v1 + v2` under `r1 + r2`.
pub fn add_commitments(c1: &str, c2: &str) -> (r: Result<String, Error>)
    ensures
        text_view(r) == spec_combine_commitments(c1@, c2@, true),
{
    combine_commitments(c1, c2, true)
}

/// Subtracts two commitments: `C1 - C2` commits to `v1 - v2` under `r1 - r2`.
pub fn subtract_commitments(c1: &str, c2: &str) -> (r: Result<String, Error>)
    ensures
        text_view(r) == spec_combine_commitments(c1@, c2@, false),
{
    combine_commitments(c1, c2, false)
}

/// What `add_blindings` and `subtract_blindings` return: the sum or difference
/// modulo `n` as 32 bytes of hex text, or why the inputs are refused.
pub open spec fn spec_combine_blindings(b1: Seq<char>, b2: Seq<char>, add: bool) -> Result<Seq<char>, Error> {
    match parse_hex(b1) {
        None => Err(Error::InvalidHex),
        Some(x) => match parse_hex(b2) {
            None => Err(Error::InvalidHex),
            Some(y) => if x.len() != 32 || be_int(x) >= group_order() || y.len() != 32 || be_int(y)
                >= group_order() {
                Err(Error::CryptoError)
            } else if add {
                Ok(hex_text(be_bytes((be_int(x) + be_int(y)) as int % group_order(), 32)))
            } else {
                Ok(hex_text(be_bytes((be_int(x) as int - be_int(y) as int) % group_order(), 32)))
            },
        },
    }
}

fn combine_blindings(b1: &str, b2: &str, add: bool) -> (r: Result<String, Error>)
    ensures
        text_view(r) == spec_combine_blindings(b1@, b2@, add),
{
    let x_bytes = match hex_to_bytes(b1) {
        Ok(v) => v,
        Err(e) => return Err(e),
    };
    let y_bytes = match hex_to_bytes(b2) {
        Ok(v) => v,
        Err(e) => return Err(e),
    };
    if x_bytes.len() != 32 || y_bytes.len() != 32 {
        return Err(Error::CryptoError);
    }
    let x = to_array32(x_bytes.as_slice());
    let y = to_array32(y_bytes.as_slice());
    let combined = if add {
        scalar_add(&x, &y)
    } else {
        scalar_sub(&x, &y)
    };
    match combined {
        Some(s) => Ok(bytes_to_hex(&s)),
        None => Err(Error::CryptoError),
    }
}

/// Adds two blinding factors modulo `n`, to open a sum of commitments.
pub fn add_blindings(b1: &str, b2: &str) -> (r: Result<String, Error>)
    ensures
        text_view(r) == spec_combine_blindings(b1@, b2@, true),
{
    combine_blindings(b1, b2, true)
}

/// Subtracts two blinding factors modulo `n`, to open a difference of commitments.
pub fn subtract_blindings(b1: &str, b2: &str) -> (r: Result<String, Error>)
    ensures
        text_view(r) == spec_combine_blindings(b1@, b2@, false),
{
    combine_blindings(b1, b2, false)
}

/// A fresh random blinding factor: 32 random bytes as hex text.
pub fn generate_blinding() -> (r: String)
    ensures
        exists|b: Seq<u8>| b.len() == 32 && r@ == hex_text(b),
{
    let b = random_bytes(32);
    bytes_to_hex(b.as_slice())
}

/// The four coordinates of `G` and `H` as plain values.
pub open spec fn quad_view(r: Result<(String, String, String, String), Error>) -> Result<
    (Seq<char>, Seq<char>, Seq<char>, Seq<char>),
    Error,
> {
    match r {
        Ok((a, b, c, d)) => Ok((a@, b@, c@, d@)),
        Err(e) => Err(e),
    }
}

/// What `get_generators` returns: the affine x and y of `G` and of `H` as hex text.
pub open spec fn spec_generators() -> Result<(Seq<char>, Seq<char>, Seq<char>, Seq<char>), Error> {
    match h_generator() {
        None => Err(Error::CryptoError),
        Some(h) => Ok(
            (
                hex_text(sec1_point(1)@.subrange(1, 33)),
                hex_text(sec1_y(1)@),
                hex_text(h.subrange(1, 33)),
                hex_text(sec1_y(h_log())@),
            ),
        ),
    }
}

fn x_coordinate(p: &[u8; 33]) -> (r: [u8; 32])
    ensures
        r@ == p@.subrange(1, 33),
{
    let mut out = [0u8; 32];
    let mut i: usize = 0;
    while i < 32
        invariant
            i <= 32,
            forall|j: int| 0 <= j < i ==> out@[j] == p@[j + 1],
        decreases 32 - i,
    {
        out[i] = p[i + 1];
        i = i + 1;
    }
    assert(out@ =~= p@.subrange(1, 33));
    out
}

/// The affine coordinates of the generators `G` and `H`, for use by proof systems:
/// `(G.x, G.y, H.x, H.y)` as hex text.
pub fn get_generators() -> (r: Result<(String, String, String, String), Error>)
    ensures
        quad_view(r) == spec_generators(),
{
    proof {
        lemma_h_independent();
        lemma_order_exceeds_u64();
    }
    let g = generator();
    let h = match generate_h() {
        Some(h) => h,
        None => return Err(Error::CryptoError),
    };
    let gy = match point_y(&g) {
        Some(y) => y,
        None => return Err(Error::CryptoError),
    };
    let hy = match point_y(&h) {
        Some(y) => y,
        None => return Err(Error::CryptoError),
    };
    let gx = x_coordinate(&g);
    let hx = x_coordinate(&h);
    Ok((bytes_to_hex(&gx), bytes_to_hex(&gy), bytes_to_hex(&hx), bytes_to_hex(&hy)))
}

/// Reducing the parts of `v + r·h` modulo `n` does not change it modulo `n`.
proof fn lemma_commitment_log_sum(v1: int, v2: int, r1: int, r2: int)
    ensures
        (commitment_log(v1, r1) + commitment_log(v2, r2)) % group_order() == commitment_log(
            v1 + v2,
            (r1 + r2) % group_order(),
        ),
{
    let n = group_order();
    let h = h_log();
    vstd::arithmetic::div_mod::lemma_add_mod_noop(v1 + r1 * h, v2 + r2 * h, n);
    vstd::arithmetic::div_mod::lemma_mul_mod_noop_left(r1 + r2, h, n);
    assert((v1 + r1 * h) + (v2 + r2 * h) == (v1 + v2) + (r1 + r2) * h) by (nonlinear_arith);
    vstd::arithmetic::div_mod::lemma_add_mod_noop_right(v1 + v2, (r1 + r2) * h, n);
    vstd::arithmetic::div_mod::lemma_add_mod_noop_right(v1 + v2, ((r1 + r2) % n) * h, n);
}

/// A commitment's encoding parses back and decodes, and its logarithm is the one it
/// was made from.
proof fn lemma_commitment_parses(k: int)
    requires
        sec1_injective(),
        0 < k < group_order(),
    ensures
        parse_hex(hex_text(sec1_point(k)@)) == Some(sec1_point(k)@),
        sec1_point(k)@.len() == 33,
        is_point(sec1_point(k)@),
        is_public_key(sec1_point(k)@),
        public_log(sec1_point(k)@) == k,
{
    lemma_hex_round_trip(sec1_point(k)@);
    assert(is_point(sec1_point(k)@));
    assert(is_public_key(sec1_point(k)@));
    let i = public_log(sec1_point(k)@);
    assert(sec1_point(i)@ == sec1_point(k)@);
    assert(sec1_point(i) =~= sec1_point(k));
}

/// Homomorphism: the sum of commitments to `v1` and `v2` under blindings `r1` and
/// `r2` opens to `v1 + v2` under the sum of the blindings. The identity is no
/// commitment, so the two commitments and their sum are taken to be other points.
pub proof fn lemma_homomorphism(v1: u64, v2: u64, r1: Seq<u8>, r2: Seq<u8>)
    requires
        v1 + v2 <= u64::MAX,
        is_blinding(r1),
        is_blinding(r2),
        commitment_log(v1 as int, blinding_scalar(r1)) != 0,
        commitment_log(v2 as int, blinding_scalar(r2)) != 0,
        commitment_log(v1 + v2, (blinding_scalar(r1) + blinding_scalar(r2)) % group_order()) != 0,
        h_generator() is Some,
        sec1_injective(),
    ensures
        spec_commit_with_blinding(v1, r1) matches Ok((c1, b1)) && spec_commit_with_blinding(v2, r2) matches Ok(
            (c2, b2),
        ) && spec_combine_commitments(c1, c2, true) matches Ok(c) && spec_combine_blindings(b1, b2, true) matches Ok(b)
            && spec_verify_opening(c, (v1 + v2) as u64, b) == Ok::<bool, Error>(true),
{
    let n = group_order();
    lemma_order_exceeds_u64();
    lemma_order_fits_32_bytes();
    let rho1 = blinding_scalar(r1);
    let rho2 = blinding_scalar(r2);
    vstd::arithmetic::div_mod::lemma_mod_bound(be_int(r1) as int, n);
    vstd::arithmetic::div_mod::lemma_mod_bound(be_int(r2) as int, n);
    let k1 = commitment_log(v1 as int, rho1);
    let k2 = commitment_log(v2 as int, rho2);
    vstd::arithmetic::div_mod::lemma_mod_bound(v1 + rho1 * h_log(), n);
    vstd::arithmetic::div_mod::lemma_mod_bound(v2 + rho2 * h_log(), n);
    lemma_commitment_parses(k1);
    lemma_commitment_parses(k2);
    lemma_be_round_trip(rho1, 32);
    lemma_be_round_trip(rho2, 32);
    lemma_hex_round_trip(be_bytes(rho1, 32));
    lemma_hex_round_trip(be_bytes(rho2, 32));
    let k = (k1 + k2) % n;
    vstd::arithmetic::div_mod::lemma_mod_bound(k1 + k2, n);
    lemma_commitment_log_sum(v1 as int, v2 as int, rho1, rho2);
    lemma_commitment_parses(k);
    let rho = (rho1 + rho2) % n;
    vstd::arithmetic::div_mod::lemma_mod_bound(rho1 + rho2, n);
    lemma_be_round_trip(rho, 32);
    lemma_hex_round_trip(be_bytes(rho, 32));
    lemma_commitment_log_sum(v1 as int, v2 as int, rho1, rho2);
}

/// Binding: a commitment to `v` does not open to any other value `w` under the same
/// blinding. The identity is no commitment, so the commitment is taken to be another
/// point.
pub proof fn lemma_binding(v: u64, w: u64, r: Seq<u8>)
    requires
        v != w,
        is_blinding(r),
        commitment_log(v as int, blinding_scalar(r)) != 0,
        h_generator() is Some,
        sec1_injective(),
    ensures
        spec_commit_with_blinding(v, r) matches Ok((c, b)) && spec_verify_opening(c, w, b) == Ok::<
            bool,
            Error,
        >(false),
{
    let n = group_order();
    lemma_order_exceeds_u64();
    lemma_order_fits_32_bytes();
    let rho = blinding_scalar(r);
    vstd::arithmetic::div_mod::lemma_mod_bound(be_int(r) as int, n);
    let k = commitment_log(v as int, rho);
    let k2 = commitment_log(w as int, rho);
    vstd::arithmetic::div_mod::lemma_mod_bound(v + rho * h_log(), n);
    vstd::arithmetic::div_mod::lemma_mod_bound(w + rho * h_log(), n);
    lemma_commitment_parses(k);
    lemma_be_round_trip(rho, 32);
    lemma_hex_round_trip(be_bytes(rho, 32));
    let x = v + rho * h_log();
    let y = w + rho * h_log();
    assert(x - y == v - w);
    if k == k2 {
        vstd::arithmetic::div_mod::lemma_sub_mod_noop(x, y, n);
        vstd::arithmetic::div_mod::lemma_sub_mod_noop(y, x, n);
        assert(0int % n == 0) by {
            vstd::arithmetic::div_mod::lemma_small_mod(0, n as nat);
        }
        assert((x - y) % n == 0);
        assert((y - x) % n == 0);
        if v > w {
            vstd::arithmetic::div_mod::lemma_small_mod((v - w) as nat, n as nat);
        } else {
            vstd::arithmetic::div_mod::lemma_small_mod((w - v) as nat, n as nat);
        }
    }
    assert(k != k2);
    if sec1_point(k)@ == sec1_point(k2)@ {
        assert(sec1_point(k) =~= sec1_point(k2));
    }
}

} // verus!
