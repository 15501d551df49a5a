//! Stealth addresses on secp256k1.
//!
//! The sender draws an ephemeral scalar `r`, computes the shared point
//! `S = r·P_spend`, hashes its x-coordinate with SHA-256 to `d`, and publishes
//! the one-time address `A = Q_view + d·G` with `R = r·G` and the view tag
//! `d[0]`. The recipient recomputes `S = p_spend·R`, and its spending key for
//! `A` is `q_view + d` modulo `n`.
use vstd::prelude::*;
use crate::commitment::{to_array32, to_array33};
use crate::crypto::{
    bytes_to_hex, hex_digits, hex_encode, hex_text, hex_to_bytes, lemma_hex_round_trip,
    parse_hex, sha256, sha256_of,
};
use crate::curve::{
    base_mul, be_bytes, be_int, ecdh_x, group_order, is_public_key, is_secret_scalar,
    lemma_be_round_trip, lemma_order_fits_32_bytes, point_add, point_y, public_key_ok, public_log,
    random_secret, scalar_reduce,
    scalar_add, scalar_below_order, sec1_injective, sec1_point, sec1_y,
};
use crate::error::Error;
use crate::types::{string_from_chars, StealthAddress, StealthAddressRecovery, StealthMetaAddress};
use vstd::string::*;
use sha3::Digest;

verus! {

/// The scalar that a digest gives: its integer reduced modulo `n`.
pub open spec fn digest_scalar(d: Seq<u8>) -> int {
    be_int(d) as int % group_order()
}

/// The x-coordinate of `s·P`, the Diffie-Hellman secret of scalar `s` and public key `P`.
pub open spec fn shared_x(secret: Seq<u8>, public: Seq<u8>) -> Seq<u8> {
    sec1_point((public_log(public) * be_int(secret)) % group_order())@.subrange(1, 33)
}

/// The SHA-256 digest of the Diffie-Hellman secret.
pub open spec fn shared_digest(secret: Seq<u8>, public: Seq<u8>) -> Seq<u8> {
    sha256_of(shared_x(secret, public))@
}

/// Parses hex text that must spell a public key.
pub open spec fn parse_public_key(text: Seq<char>) -> Result<Seq<u8>, Error> {
    match parse_hex(text) {
        None => Err(Error::InvalidHex),
        Some(b) => if b.len() == 33 && is_public_key(b) {
            Ok(b)
        } else {
            Err(Error::InvalidPublicKey)
        },
    }
}

/// What `stealth_meta_address_from_secrets` returns: the two public keys as hex text.
pub open spec fn spec_meta_keys(spending: Seq<u8>, viewing: Seq<u8>) -> (Seq<char>, Seq<char>) {
    (hex_text(sec1_point(be_int(spending) as int)@), hex_text(sec1_point(be_int(viewing) as int)@))
}

/// Builds the meta-address of two secret scalars: their public keys and the chain,
/// with the secrets as hex text. `InvalidPrivateKey` if either is not in `[1, n)`.
pub fn stealth_meta_address_from_secrets(chain: &str, spending: &[u8; 32], viewing: &[u8; 32]) -> (r:
    Result<(StealthMetaAddress, String, String), Error>)
    ensures
        !(is_secret_scalar(spending@) && is_secret_scalar(viewing@)) ==> r == Err::<
            (StealthMetaAddress, String, String),
            Error,
        >(Error::InvalidPrivateKey),
        is_secret_scalar(spending@) && is_secret_scalar(viewing@) ==> (r matches Ok((m, s, v))
            && (m.spending_key@, m.viewing_key@) == spec_meta_keys(spending@, viewing@) && m.chain@
            == chain@ && m.label is None && s@ == hex_text(spending@) && v@ == hex_text(viewing@)),
{
    if crate::commitment::is_zero_scalar(spending) || crate::commitment::is_zero_scalar(viewing)
        || !scalar_below_order(spending) || !scalar_below_order(viewing) {
        return Err(Error::InvalidPrivateKey);
    }
    let spending_pub = match base_mul(spending) {
        Some(p) => p,
        None => return Err(Error::InvalidPrivateKey),
    };
    let viewing_pub = match base_mul(viewing) {
        Some(p) => p,
        None => return Err(Error::InvalidPrivateKey),
    };
    let meta = StealthMetaAddress::new(
        bytes_to_hex(&spending_pub),
        bytes_to_hex(&viewing_pub),
        String::from_str(chain),
    );
    Ok((meta, bytes_to_hex(spending), bytes_to_hex(viewing)))
}

/// Generates a fresh meta-address for `chain`, with its spending and viewing
/// private keys as hex text.
pub fn generate_stealth_meta_address(chain: &str) -> (r: (StealthMetaAddress, String, String))
    ensures
        exists|sp: Seq<u8>, vk: Seq<u8>|
            is_secret_scalar(sp) && is_secret_scalar(vk) && sp.len() == 32 && vk.len() == 32 && (
            r.0.spending_key@, r.0.viewing_key@) == #[trigger] spec_meta_keys(sp, vk) && r.1@ == hex_text(sp) && r.2@ == hex_text(vk),
        r.0.chain@ == chain@,
        r.0.label is None,
{
    let spending = random_secret();
    let viewing = random_secret();
    match stealth_meta_address_from_secrets(chain, &spending, &viewing) {
        Ok(result) => result,
        Err(_) => vstd::pervasive::unreached(),
    }
}

/// The stealth address as plain values: address, ephemeral key, view tag.
pub open spec fn stealth_view(a: StealthAddress) -> (Seq<char>, Seq<char>, u8) {
    (a.address@, a.ephemeral_public_key@, a.view_tag)
}

/// What `stealth_address_with_ephemeral` returns for the meta-address's two keys and
/// the ephemeral scalar: the stealth address and the shared-secret digest as hex text.
pub open spec fn spec_stealth_address(spending_key: Seq<char>, viewing_key: Seq<char>, ephemeral: Seq<u8>) -> Result<
    ((Seq<char>, Seq<char>, u8), Seq<char>),
    Error,
> {
    if !is_secret_scalar(ephemeral) {
        Err(Error::InvalidPrivateKey)
    } else {
        match parse_hex(spending_key) {
            None => Err(Error::InvalidHex),
            Some(_) => match parse_hex(viewing_key) {
                None => Err(Error::InvalidHex),
                Some(_) => match parse_public_key(spending_key) {
                    Err(e) => Err(e),
                    Ok(p) => match parse_public_key(viewing_key) {
                        Err(e) => Err(e),
                        Ok(q) => {
                            let d = shared_digest(ephemeral, p);
                            if digest_scalar(d) == 0 {
                                Err(Error::CryptoError)
                            } else {
                                Ok(
                                    (
                                        (
                                            hex_text(sec1_point((public_log(q) + digest_scalar(d)) % group_order())@),
                                            hex_text(sec1_point(be_int(ephemeral) as int)@),
                                            d[0],
                                        ),
                                        hex_text(d),
                                    ),
                                )
                            }
                        },
                    },
                },
            },
        }
    }
}

/// The stealth address result as plain values.
pub open spec fn stealth_result_view(r: Result<(StealthAddress, String), Error>) -> Result<
    ((Seq<char>, Seq<char>, u8), Seq<char>),
    Error,
> {
    match r {
        Ok((a, d)) => Ok((stealth_view(a), d@)),
        Err(e) => Err(e),
    }
}

/// Decodes hex text that must spell a public key.
fn decode_public_key(text: &str) -> (r: Result<[u8; 33], Error>)
    ensures
        match parse_public_key(text@) {
            Ok(b) => r is Ok && r->Ok_0@ == b,
            Err(e) => r == Err::<[u8; 33], Error>(e),
        },
{
    let bytes = match hex_to_bytes(text) {
        Ok(b) => b,
        Err(e) => return Err(e),
    };
    if bytes.len() != 33 {
        return Err(Error::InvalidPublicKey);
    }
    let key = to_array33(bytes.as_slice());
    let key_ok = public_key_ok(&key);
    if !(key_ok && (key[0] == 2 || key[0] == 3)) {
        return Err(Error::InvalidPublicKey);
    }
    Ok(key)
}

/// The logarithm that `public_log` picks is one that the key encodes.
proof fn lemma_public_log(b: Seq<u8>)
    requires
        is_public_key(b),
    ensures
        0 < public_log(b) < group_order(),
        b == sec1_point(public_log(b))@,
{
}

/// What `one_time_address` returns: `Q + d·G` for a viewing public key `Q` and a
/// digest `d` reduced modulo `n`, or why they are refused (a digest that reduces to
/// zero gives no usable scalar).
pub open spec fn spec_one_time_address(viewing: Seq<u8>, d: Seq<u8>) -> Result<Seq<u8>, Error> {
    if !is_public_key(viewing) {
        Err(Error::InvalidPublicKey)
    } else if digest_scalar(d) == 0 {
        Err(Error::CryptoError)
    } else {
        Ok(sec1_point((public_log(viewing) + digest_scalar(d)) % group_order())@)
    }
}

/// A digest reduced modulo `n`, as 32 bytes.
fn reduce_digest(digest: &[u8; 32]) -> (r: [u8; 32])
    ensures
        r@ == be_bytes(digest_scalar(digest@), 32),
        be_int(r@) == digest_scalar(digest@),
        digest_scalar(digest@) < group_order(),
{
    let r = scalar_reduce(digest);
    proof {
        lemma_order_fits_32_bytes();
        vstd::arithmetic::div_mod::lemma_mod_bound(be_int(digest@) as int, group_order());
        lemma_be_round_trip(digest_scalar(digest@), 32);
    }
    r
}

/// The one-time address `Q + d·G` of a viewing public key and a shared-secret digest.
pub fn one_time_address(viewing_key: &[u8; 33], digest: &[u8; 32]) -> (r: Result<[u8; 33], Error>)
    ensures
        match spec_one_time_address(viewing_key@, digest@) {
            Ok(a) => r is Ok && r->Ok_0@ == a,
            Err(e) => r == Err::<[u8; 33], Error>(e),
        },
{
    let key_ok = public_key_ok(viewing_key);
    if !(key_ok && (viewing_key[0] == 2 || viewing_key[0] == 3)) {
        return Err(Error::InvalidPublicKey);
    }
    proof {
        lemma_public_log(viewing_key@);
    }
    let h = reduce_digest(digest);
    if crate::commitment::is_zero_scalar(&h) {
        return Err(Error::CryptoError);
    }
    let digest_g = match base_mul(&h) {
        Some(p) => p,
        None => return Err(Error::CryptoError),
    };
    match point_add(viewing_key, &digest_g) {
        Some(p) => Ok(p),
        None => Err(Error::CryptoError),
    }
}

/// Derives the stealth address of a meta-address's keys for a given ephemeral scalar.
pub fn stealth_address_with_ephemeral(meta: &StealthMetaAddress, ephemeral: &[u8; 32]) -> (r: Result<
    (StealthAddress, String),
    Error,
>)
    ensures
        stealth_result_view(r) == spec_stealth_address(meta.spending_key@, meta.viewing_key@, ephemeral@),
{
    if crate::commitment::is_zero_scalar(ephemeral) || !scalar_below_order(ephemeral) {
        return Err(Error::InvalidPrivateKey);
    }
    if let Err(e) = hex_to_bytes(meta.spending_key.as_str()) {
        return Err(e);
    }
    if let Err(e) = hex_to_bytes(meta.viewing_key.as_str()) {
        return Err(e);
    }
    let spending_pub = match decode_public_key(meta.spending_key.as_str()) {
        Ok(p) => p,
        Err(e) => return Err(e),
    };
    let viewing_pub = match decode_public_key(meta.viewing_key.as_str()) {
        Ok(p) => p,
        Err(e) => return Err(e),
    };
    proof {
        lemma_public_log(spending_pub@);
        lemma_public_log(viewing_pub@);
    }
    let shared = match ecdh_x(ephemeral, &spending_pub) {
        Some(x) => x,
        None => return Err(Error::CryptoError),
    };
    let digest = sha256(&shared);
    let address = match one_time_address(&viewing_pub, &digest) {
        Ok(a) => a,
        Err(e) => return Err(e),
    };
    let ephemeral_pub = match base_mul(ephemeral) {
        Some(p) => p,
        None => return Err(Error::InvalidPrivateKey),
    };
    let stealth = StealthAddress {
        address: bytes_to_hex(&address),
        ephemeral_public_key: bytes_to_hex(&ephemeral_pub),
        view_tag: digest[0],
    };
    Ok((stealth, bytes_to_hex(&digest)))
}

/// Derives a fresh one-time stealth address for a recipient, with the shared-secret
/// digest as hex text.
pub fn generate_stealth_address(recipient_meta_address: &StealthMetaAddress) -> (r: Result<
    (StealthAddress, String),
    Error,
>)
    ensures
        exists|e: Seq<u8>|
            is_secret_scalar(e) && e.len() == 32 && stealth_result_view(r) == #[trigger] spec_stealth_address(
                recipient_meta_address.spending_key@,
                recipient_meta_address.viewing_key@,
                e,
            ),
{
    let ephemeral = random_secret();
    stealth_address_with_ephemeral(recipient_meta_address, &ephemeral)
}

/// The steps that recovery and checking share, up to the shared-secret digest: the
/// spending key and ephemeral key parsed, or why they are refused.
pub open spec fn spec_recipient_digest(ephemeral: Seq<char>, spending: Seq<char>, viewing: Seq<char>) -> Result<
    Seq<u8>,
    Error,
> {
    match parse_hex(spending) {
        None => Err(Error::InvalidHex),
        Some(sp) => match parse_hex(viewing) {
            None => Err(Error::InvalidHex),
            Some(_) => match parse_hex(ephemeral) {
                None => Err(Error::InvalidHex),
                Some(_) => if !(sp.len() == 32 && is_secret_scalar(sp)) {
                    Err(Error::InvalidPrivateKey)
                } else {
                    match parse_public_key(ephemeral) {
                        Err(e) => Err(e),
                        Ok(eph) => Ok(shared_digest(sp, eph)),
                    }
                },
            },
        },
    }
}

/// The stealth private scalar: the viewing scalar (in `[1, n)`) plus the digest,
/// modulo `n`; or why the viewing key or the digest is refused (a digest that
/// reduces to zero gives no usable scalar).
pub open spec fn spec_stealth_scalar(viewing: Seq<char>, d: Seq<u8>) -> Result<int, Error> {
    match parse_hex(viewing) {
        None => Err(Error::InvalidHex),
        Some(vk) => if !(vk.len() == 32 && is_secret_scalar(vk)) {
            Err(Error::InvalidPrivateKey)
        } else if digest_scalar(d) == 0 {
            Err(Error::CryptoError)
        } else {
            Ok((be_int(vk) + digest_scalar(d)) % group_order())
        },
    }
}

/// What `derive_stealth_private_key` gives as the private key: hex text of the
/// stealth private scalar, or why the inputs are refused.
pub open spec fn spec_derive_private_key(ephemeral: Seq<char>, spending: Seq<char>, viewing: Seq<char>) -> Result<
    Seq<char>,
    Error,
> {
    match spec_recipient_digest(ephemeral, spending, viewing) {
        Err(e) => Err(e),
        Ok(d) => match spec_stealth_scalar(viewing, d) {
            Err(e) => Err(e),
            Ok(x) => Ok(hex_text(be_bytes(x, 32))),
        },
    }
}

/// What `check_stealth_address` returns: whether the address is the recipient's, or
/// why the inputs are refused. A view tag that differs from the digest's first byte
/// answers `false` before the viewing key is read.
pub open spec fn spec_check_stealth(
    address: Seq<char>,
    ephemeral: Seq<char>,
    view_tag: u8,
    spending: Seq<char>,
    viewing: Seq<char>,
) -> Result<bool, Error> {
    match spec_recipient_digest(ephemeral, spending, viewing) {
        Err(e) => Err(e),
        Ok(d) => if d[0] != view_tag {
            Ok(false)
        } else {
            match spec_stealth_scalar(viewing, d) {
                Err(e) => Err(e),
                Ok(x) => match parse_hex(address) {
                    None => Err(Error::InvalidHex),
                    Some(a) => Ok(a == sec1_point(x)@),
                },
            }
        },
    }
}

/// The recipient's shared-secret digest for a stealth address.
fn recipient_digest(stealth_address: &StealthAddress, spending_private_key: &str, viewing_private_key: &str) -> (r:
    Result<[u8; 32], Error>)
    ensures
        match spec_recipient_digest(
            stealth_address.ephemeral_public_key@,
            spending_private_key@,
            viewing_private_key@,
        ) {
            Ok(d) => r is Ok && r->Ok_0@ == d,
            Err(e) => r == Err::<[u8; 32], Error>(e),
        },
{
    let sp_bytes = match hex_to_bytes(spending_private_key) {
        Ok(b) => b,
        Err(e) => return Err(e),
    };
    if let Err(e) = hex_to_bytes(viewing_private_key) {
        return Err(e);
    }
    if let Err(e) = hex_to_bytes(stealth_address.ephemeral_public_key.as_str()) {
        return Err(e);
    }
    if sp_bytes.len() != 32 {
        return Err(Error::InvalidPrivateKey);
    }
    let sp = to_array32(sp_bytes.as_slice());
    if crate::commitment::is_zero_scalar(&sp) || !scalar_below_order(&sp) {
        return Err(Error::InvalidPrivateKey);
    }
    let eph = match decode_public_key(stealth_address.ephemeral_public_key.as_str()) {
        Ok(p) => p,
        Err(e) => return Err(e),
    };
    proof {
        lemma_public_log(eph@);
    }
    let shared = match ecdh_x(&sp, &eph) {
        Some(x) => x,
        None => return Err(Error::CryptoError),
    };
    Ok(sha256(&shared))
}

/// The stealth private scalar of a viewing private key and a shared-secret digest,
/// as 32 bytes.
pub fn stealth_private_scalar(viewing_private_key: &str, digest: &[u8; 32]) -> (r: Result<[u8; 32], Error>)
    ensures
        match spec_stealth_scalar(viewing_private_key@, digest@) {
            Ok(x) => r is Ok && r->Ok_0@ == be_bytes(x, 32),
            Err(e) => r == Err::<[u8; 32], Error>(e),
        },
{
    let vk_bytes = match hex_to_bytes(viewing_private_key) {
        Ok(b) => b,
        Err(e) => return Err(e),
    };
    if vk_bytes.len() != 32 {
        return Err(Error::InvalidPrivateKey);
    }
    let vk = to_array32(vk_bytes.as_slice());
    if crate::commitment::is_zero_scalar(&vk) || !scalar_below_order(&vk) {
        return Err(Error::InvalidPrivateKey);
    }
    let h = reduce_digest(digest);
    if crate::commitment::is_zero_scalar(&h) {
        return Err(Error::CryptoError);
    }
    match scalar_add(&vk, &h) {
        Some(x) => Ok(x),
        None => Err(Error::CryptoError),
    }
}

/// The recovery as plain values: address, ephemeral key, private key.
pub open spec fn recovery_view(r: Result<StealthAddressRecovery, Error>) -> Result<
    (Seq<char>, Seq<char>, Seq<char>),
    Error,
> {
    match r {
        Ok(x) => Ok((x.stealth_address@, x.ephemeral_public_key@, x.private_key@)),
        Err(e) => Err(e),
    }
}

/// Recovers the private key that spends from a stealth address: `q_view + d` modulo `n`.
pub fn derive_stealth_private_key(
    stealth_address: &StealthAddress,
    spending_private_key: &str,
    viewing_private_key: &str,
) -> (r: Result<StealthAddressRecovery, Error>)
    ensures
        recovery_view(r) == match spec_derive_private_key(
            stealth_address.ephemeral_public_key@,
            spending_private_key@,
            viewing_private_key@,
        ) {
            Ok(k) => Ok((stealth_address.address@, stealth_address.ephemeral_public_key@, k)),
            Err(e) => Err(e),
        },
{
    let digest = match recipient_digest(stealth_address, spending_private_key, viewing_private_key) {
        Ok(d) => d,
        Err(e) => return Err(e),
    };
    let x = match stealth_private_scalar(viewing_private_key, &digest) {
        Ok(x) => x,
        Err(e) => return Err(e),
    };
    Ok(
        StealthAddressRecovery {
            stealth_address: stealth_address.address.clone(),
            ephemeral_public_key: stealth_address.ephemeral_public_key.clone(),
            private_key: bytes_to_hex(&x),
        },
    )
}

fn bytes_eq(a: &[u8], b: &[u8]) -> (r: bool)
    ensures
        r == (a@ == b@),
{
    if a.len() != b.len() {
        return false;
    }
    let mut i: usize = 0;
    while i < a.len()
        invariant
            i <= a@.len(),
            a@.len() == b@.len(),
            forall|j: int| 0 <= j < i ==> a@[j] == b@[j],
        decreases a@.len() - i,
    {
        if a[i] != b[i] {
            return false;
        }
        i = i + 1;
    }
    assert(a@ =~= b@);
    true
}

/// Whether a stealth address belongs to the holder of the two private keys. The
/// view tag is compared first; as it comes from the shared secret, a mismatch saves
/// only the final multiplication and comparison, not the Diffie-Hellman step.
pub fn check_stealth_address(
    stealth_address: &StealthAddress,
    spending_private_key: &str,
    viewing_private_key: &str,
) -> (r: Result<bool, Error>)
    ensures
        r == spec_check_stealth(
            stealth_address.address@,
            stealth_address.ephemeral_public_key@,
            stealth_address.view_tag,
            spending_private_key@,
            viewing_private_key@,
        ),
{
    let digest = match recipient_digest(stealth_address, spending_private_key, viewing_private_key) {
        Ok(d) => d,
        Err(e) => return Err(e),
    };
    if digest[0] != stealth_address.view_tag {
        return Ok(false);
    }
    let x = match stealth_private_scalar(viewing_private_key, &digest) {
        Ok(x) => x,
        Err(e) => return Err(e),
    };
    proof {
        lemma_order_fits_32_bytes();
        let xi = spec_stealth_scalar(viewing_private_key@, digest@)->Ok_0;
        vstd::arithmetic::div_mod::lemma_mod_bound(
            be_int(parse_hex(viewing_private_key@)->Some_0) + digest_scalar(digest@),
            group_order(),
        );
        lemma_be_round_trip(xi, 32);
    }
    let expected = match base_mul(&x) {
        Some(p) => p,
        None => return Err(Error::CryptoError),
    };
    let provided = match hex_to_bytes(stealth_address.address.as_str()) {
        Ok(b) => b,
        Err(e) => return Err(e),
    };
    Ok(bytes_eq(provided.as_slice(), &expected))
}

/// A public key made from a secret scalar parses back, and its logarithm is the scalar.
proof fn lemma_public_key_parses(k: int)
    requires
        sec1_injective(),
        0 < k < group_order(),
    ensures
        parse_hex(hex_text(sec1_point(k)@)) == Some(sec1_point(k)@),
        parse_public_key(hex_text(sec1_point(k)@)) == Ok::<Seq<u8>, Error>(sec1_point(k)@),
        public_log(sec1_point(k)@) == k,
{
    lemma_hex_round_trip(sec1_point(k)@);
    assert(is_public_key(sec1_point(k)@));
    let i = public_log(sec1_point(k)@);
    assert(sec1_point(i)@ == sec1_point(k)@);
    assert(sec1_point(i) =~= sec1_point(k));
}

/// The sender's and the recipient's Diffie-Hellman digests agree.
proof fn lemma_digests_agree(sp: Seq<u8>, e: Seq<u8>)
    requires
        sec1_injective(),
        is_secret_scalar(sp),
        is_secret_scalar(e),
    ensures
        shared_digest(e, sec1_point(be_int(sp) as int)@) == shared_digest(sp, sec1_point(be_int(e) as int)@),
{
    lemma_public_key_parses(be_int(sp) as int);
    lemma_public_key_parses(be_int(e) as int);
    assert(be_int(sp) * be_int(e) == be_int(e) * be_int(sp)) by (nonlinear_arith);
}

/// Round trip: for a meta-address made from secrets `sp` and `vk` and any stealth
/// address derived from it, the holder of `sp` and `vk` recognises the address, and
/// the private key recovered for it is the address's discrete logarithm.
pub proof fn lemma_stealth_round_trip(sp: Seq<u8>, vk: Seq<u8>, e: Seq<u8>)
    requires
        sp.len() == 32,
        vk.len() == 32,
        e.len() == 32,
        is_secret_scalar(sp),
        is_secret_scalar(vk),
        is_secret_scalar(e),
        sec1_injective(),
    ensures
        spec_stealth_address(spec_meta_keys(sp, vk).0, spec_meta_keys(sp, vk).1, e) matches Ok(
            ((a, r, tag), _),
        ) ==> (spec_check_stealth(a, r, tag, hex_text(sp), hex_text(vk)) == Ok::<bool, Error>(true)
            && (spec_derive_private_key(r, hex_text(sp), hex_text(vk)) matches Ok(k) && (parse_hex(k) matches Some(
            kb,
        ) && parse_hex(a) == Some(sec1_point(be_int(kb) as int)@)))),
{
    let n = group_order();
    let spi = be_int(sp) as int;
    let vki = be_int(vk) as int;
    let ei = be_int(e) as int;
    lemma_public_key_parses(spi);
    lemma_public_key_parses(vki);
    lemma_public_key_parses(ei);
    lemma_hex_round_trip(sp);
    lemma_hex_round_trip(vk);
    lemma_digests_agree(sp, e);
    let d = shared_digest(e, sec1_point(spi)@);
    if digest_scalar(d) != 0 {
        let x = (vki + digest_scalar(d)) % n;
        vstd::arithmetic::div_mod::lemma_mod_bound(vki + digest_scalar(d), n);
        lemma_hex_round_trip(sec1_point(x)@);
        lemma_order_fits_32_bytes();
        lemma_be_round_trip(x, 32);
        lemma_hex_round_trip(be_bytes(x, 32));
    }
}

/// Keys that are accepted can spend: when `check_stealth_address` answers `true`
/// for a stealth address of the meta-address of `sp` and `vk`, the checked keys
/// recover the same private scalar as `sp` and `vk` do. So a viewing key that differs
/// from `vk` modulo `n`, beside the right spending key, is refused.
pub proof fn lemma_accepted_keys_spend(sp: Seq<u8>, vk: Seq<u8>, e: Seq<u8>, sp2: Seq<char>, vk2: Seq<char>)
    requires
        sp.len() == 32,
        vk.len() == 32,
        e.len() == 32,
        is_secret_scalar(sp),
        is_secret_scalar(vk),
        is_secret_scalar(e),
        sec1_injective(),
    ensures
        spec_stealth_address(spec_meta_keys(sp, vk).0, spec_meta_keys(sp, vk).1, e) matches Ok(
            ((a, r, tag), _),
        ) ==> (spec_check_stealth(a, r, tag, sp2, vk2) == Ok::<bool, Error>(true) ==> (spec_recipient_digest(
            r,
            sp2,
            vk2,
        ) matches Ok(d2) && spec_stealth_scalar(vk2, d2) == spec_stealth_scalar(
            hex_text(vk),
            shared_digest(sp, sec1_point(be_int(e) as int)@),
        ))),
{
    let n = group_order();
    let spi = be_int(sp) as int;
    let vki = be_int(vk) as int;
    let ei = be_int(e) as int;
    lemma_public_key_parses(spi);
    lemma_public_key_parses(vki);
    lemma_public_key_parses(ei);
    lemma_hex_round_trip(sp);
    lemma_hex_round_trip(vk);
    lemma_digests_agree(sp, e);
    let d = shared_digest(e, sec1_point(spi)@);
    if digest_scalar(d) != 0 {
        let x = (vki + digest_scalar(d)) % n;
        vstd::arithmetic::div_mod::lemma_mod_bound(vki + digest_scalar(d), n);
        lemma_hex_round_trip(sec1_point(x)@);
        let r = hex_text(sec1_point(ei)@);
        if spec_check_stealth(hex_text(sec1_point(x)@), r, d[0], sp2, vk2) == Ok::<bool, Error>(true) {
            let d2 = spec_recipient_digest(r, sp2, vk2)->Ok_0;
            let x2 = spec_stealth_scalar(vk2, d2)->Ok_0;
            let vk2b = parse_hex(vk2)->Some_0;
            vstd::arithmetic::div_mod::lemma_mod_bound(be_int(vk2b) + digest_scalar(d2), n);
            assert(sec1_point(x2)@ == sec1_point(x)@);
            assert(sec1_point(x2) =~= sec1_point(x));
        }
    }
}

/// A foreign viewing key is refused: beside the right spending key, a viewing key
/// other than `vk` (both below `n`) makes `check_stealth_address` answer `false`.
pub proof fn lemma_foreign_viewing_key(sp: Seq<u8>, vk: Seq<u8>, e: Seq<u8>, vk2: Seq<u8>)
    requires
        sp.len() == 32,
        vk.len() == 32,
        e.len() == 32,
        vk2.len() == 32,
        is_secret_scalar(sp),
        is_secret_scalar(vk),
        is_secret_scalar(e),
        is_secret_scalar(vk2),
        be_int(vk2) != be_int(vk),
        sec1_injective(),
    ensures
        spec_stealth_address(spec_meta_keys(sp, vk).0, spec_meta_keys(sp, vk).1, e) matches Ok(
            ((a, r, tag), _),
        ) ==> spec_check_stealth(a, r, tag, hex_text(sp), hex_text(vk2)) == Ok::<bool, Error>(false),
{
    let n = group_order();
    lemma_stealth_round_trip(sp, vk, e);
    lemma_accepted_keys_spend(sp, vk, e, hex_text(sp), hex_text(vk2));
    lemma_hex_round_trip(vk2);
    lemma_hex_round_trip(sp);
    lemma_hex_round_trip(vk);
    lemma_public_key_parses(be_int(e) as int);
    lemma_public_key_parses(be_int(sp) as int);
    lemma_public_key_parses(be_int(vk) as int);
    lemma_digests_agree(sp, e);
    let d = shared_digest(sp, sec1_point(be_int(e) as int)@);
    if digest_scalar(d) != 0 {
        let x = be_int(vk) + digest_scalar(d);
        let y = be_int(vk2) + digest_scalar(d);
        vstd::arithmetic::div_mod::lemma_mod_bound(x, n);
        vstd::arithmetic::div_mod::lemma_mod_bound(y, n);
        lemma_hex_round_trip(sec1_point(x % n)@);
        if sec1_point(x % n)@ == sec1_point(y % n)@ {
            assert(sec1_point(x % n) =~= sec1_point(y % n));
        }
        if x % n == y % n {
            vstd::arithmetic::div_mod::lemma_sub_mod_noop(x, y, n);
            vstd::arithmetic::div_mod::lemma_sub_mod_noop(y, x, n);
            vstd::arithmetic::div_mod::lemma_small_mod(0, n as nat);
            if be_int(vk) > be_int(vk2) {
                vstd::arithmetic::div_mod::lemma_small_mod((x - y) as nat, n as nat);
            } else {
                vstd::arithmetic::div_mod::lemma_small_mod((y - x) as nat, n as nat);
            }
        }
    }
}

/// The text encoding of a meta-address: `sip:<chain>:<spending key>:<viewing key>`.
pub open spec fn spec_encode_meta(chain: Seq<char>, spending: Seq<char>, viewing: Seq<char>) -> Seq<char> {
    "sip:"@ + chain + ":"@ + spending + ":"@ + viewing
}

/// Encodes a meta-address as `sip:<chain>:<spending key>:<viewing key>`.
pub fn encode_stealth_meta_address(meta_address: &StealthMetaAddress) -> (r: String)
    ensures
        r@ == spec_encode_meta(meta_address.chain@, meta_address.spending_key@, meta_address.viewing_key@),
{
    let mut text = String::from_str("sip:");
    text.append(meta_address.chain.as_str());
    text.append(":");
    text.append(meta_address.spending_key.as_str());
    text.append(":");
    text.append(meta_address.viewing_key.as_str());
    text
}

/// The fields of a text between colons, in order.
pub open spec fn split_colons(s: Seq<char>) -> Seq<Seq<char>>
    decreases s.len(),
{
    if s.len() == 0 {
        seq![Seq::empty()]
    } else {
        let p = split_colons(s.drop_last());
        if s.last() == ':' {
            p.push(Seq::empty())
        } else {
            p.update(p.len() - 1, p.last().push(s.last()))
        }
    }
}

proof fn lemma_split_nonempty(s: Seq<char>)
    ensures
        split_colons(s).len() >= 1,
    decreases s.len(),
{
    if s.len() > 0 {
        lemma_split_nonempty(s.drop_last());
    }
}

/// What `decode_stealth_meta_address` returns: spending key, viewing key and chain,
/// for exactly four fields of which the first is `sip`.
pub open spec fn spec_decode_meta(s: Seq<char>) -> Result<(Seq<char>, Seq<char>, Seq<char>), Error> {
    let parts = split_colons(s);
    if parts.len() == 4 && parts[0] == "sip"@ {
        Ok((parts[2], parts[3], parts[1]))
    } else {
        Err(Error::InvalidStealthMetaAddress)
    }
}

/// Decodes `sip:<chain>:<spending key>:<viewing key>`; the keys are not checked here.
pub fn decode_stealth_meta_address(encoded: &str) -> (r: Result<StealthMetaAddress, Error>)
    ensures
        match spec_decode_meta(encoded@) {
            Ok((sp, vk, chain)) => r matches Ok(m) && m.spending_key@ == sp && m.viewing_key@ == vk
                && m.chain@ == chain && m.label is None,
            Err(e) => r == Err::<StealthMetaAddress, Error>(e),
        },
{
    let n = encoded.unicode_len();
    let mut done: Vec<Vec<char>> = Vec::new();
    let mut current: Vec<char> = Vec::new();
    let mut i: usize = 0;
    while i < n
        invariant
            i <= n,
            n == encoded@.len(),
            split_colons(encoded@.subrange(0, i as int)) == done@.map_values(|v: Vec<char>| v@).push(current@),
        decreases n - i,
    {
        let c = encoded.get_char(i);
        proof {
            let pre = encoded@.subrange(0, i + 1);
            assert(pre.drop_last() =~= encoded@.subrange(0, i as int));
            lemma_split_nonempty(encoded@.subrange(0, i as int));
        }
        if c == ':' {
            done.push(current);
            current = Vec::new();
        } else {
            current.push(c);
        }
        proof {
            let pre = encoded@.subrange(0, i + 1);
            assert(split_colons(pre) =~= done@.map_values(|v: Vec<char>| v@).push(current@));
        }
        i = i + 1;
    }
    assert(encoded@.subrange(0, n as int) =~= encoded@);
    let ghost parts = split_colons(encoded@);
    if done.len() != 3 {
        return Err(Error::InvalidStealthMetaAddress);
    }
    let first = &done[0];
    if !(first.len() == 3 && first[0] == 's' && first[1] == 'i' && first[2] == 'p') {
        proof {
            reveal_strlit("sip");
            if parts[0] == "sip"@ {
                assert(parts[0] == first@);
            }
        }
        return Err(Error::InvalidStealthMetaAddress);
    }
    proof {
        reveal_strlit("sip");
        assert(first@ =~= "sip"@);
    }
    let chain = string_from_chars(&done[1]);
    let spending = string_from_chars(&done[2]);
    let viewing = string_from_chars(&current);
    Ok(StealthMetaAddress::new(spending, viewing, chain))
}

/// Whether a text holds no colon.
pub open spec fn colon_free(s: Seq<char>) -> bool {
    forall|i: int| 0 <= i < s.len() ==> s[i] != ':'
}

/// Appending colon-free text extends the last field.
proof fn lemma_split_append(p: Seq<char>, b: Seq<char>)
    requires
        colon_free(b),
    ensures
        split_colons(p + b) == split_colons(p).update(
            split_colons(p).len() - 1,
            split_colons(p).last() + b,
        ),
    decreases b.len(),
{
    lemma_split_nonempty(p);
    let sp = split_colons(p);
    if b.len() == 0 {
        assert(p + b =~= p);
        assert(sp.last() + b =~= sp.last());
        assert(sp.update(sp.len() - 1, sp.last() + b) =~= sp);
    } else {
        let c = b.last();
        let b0 = b.drop_last();
        assert(colon_free(b0)) by {
            assert forall|i: int| 0 <= i < b0.len() implies b0[i] != ':' by {
                assert(b0[i] == b[i]);
            }
        }
        assert(c != ':') by {
            assert(b[b.len() - 1] != ':');
        }
        lemma_split_append(p, b0);
        assert((p + b).drop_last() =~= p + b0);
        assert((p + b).last() == c);
        let q = split_colons(p + b0);
        lemma_split_nonempty(p + b0);
        assert(q.last() == sp.last() + b0);
        assert(q.last().push(c) =~= sp.last() + b);
        assert(q.update(q.len() - 1, q.last().push(c)) =~= sp.update(sp.len() - 1, sp.last() + b));
    }
}

/// Appending a colon starts a new, empty field.
proof fn lemma_split_colon(p: Seq<char>)
    ensures
        split_colons(p.push(':')) == split_colons(p).push(Seq::<char>::empty()),
{
    assert(p.push(':').drop_last() =~= p);
}

/// Text round trip: a meta-address whose chain and keys hold no colon decodes from
/// its encoding to the same chain and keys.
pub proof fn lemma_meta_text_round_trip(chain: Seq<char>, spending: Seq<char>, viewing: Seq<char>)
    requires
        colon_free(chain),
        colon_free(spending),
        colon_free(viewing),
    ensures
        spec_decode_meta(spec_encode_meta(chain, spending, viewing)) == Ok::<
            (Seq<char>, Seq<char>, Seq<char>),
            Error,
        >((spending, viewing, chain)),
{
    reveal_strlit("sip:");
    reveal_strlit(":");
    reveal_strlit("sip");
    let e = Seq::<char>::empty();
    let a0 = seq!['s', 'i', 'p'];
    assert(colon_free(a0));
    lemma_split_append(e, a0);
    assert(e + a0 =~= a0);
    assert(split_colons(e) == seq![e]);
    let a1 = a0.push(':');
    lemma_split_colon(a0);
    assert("sip:"@ =~= a1);
    lemma_split_append(a1, chain);
    let a2 = a1 + chain;
    let a3 = a2.push(':');
    lemma_split_colon(a2);
    assert(a2 + ":"@ =~= a3);
    lemma_split_append(a3, spending);
    let a4 = a3 + spending;
    let a5 = a4.push(':');
    lemma_split_colon(a4);
    assert(a4 + ":"@ =~= a5);
    lemma_split_append(a5, viewing);
    let parts = split_colons(a5 + viewing);
    assert(split_colons(a0) =~= seq![a0]);
    assert(split_colons(a1) =~= seq![a0, e]);
    assert(split_colons(a2) =~= seq![a0, chain]);
    assert(split_colons(a3) =~= seq![a0, chain, e]);
    assert(split_colons(a4) =~= seq![a0, chain, spending]);
    assert(split_colons(a5) =~= seq![a0, chain, spending, e]);
    assert(parts =~= seq![a0, chain, spending, viewing]);
    assert(a0 =~= "sip"@);
}

/// The Keccak-256 digest of a byte string.
pub uninterp spec fn keccak256_of(data: Seq<u8>) -> [u8; 32];

/// Relies on sha3::Keccak256: the 32-byte digest of `data`.
#[verifier::external_body]
fn keccak256(data: &[u8]) -> (r: [u8; 32])
    ensures
        r == keccak256_of(data@),
{
    sha3::Keccak256::digest(data).into()
}

/// The ASCII code of each character.
pub open spec fn ascii_bytes(s: Seq<char>) -> Seq<u8> {
    Seq::new(s.len(), |i: int| s[i] as u8)
}

/// The half-byte of `b` at hex position `i`: the high one at even positions.
pub open spec fn nibble(b: Seq<u8>, i: int) -> int {
    if i % 2 == 0 {
        b[i / 2] as int / 16
    } else {
        b[i / 2] as int % 16
    }
}

/// The uppercase of a lowercase hex letter; other characters are kept.
pub open spec fn hex_upper(c: char) -> char {
    if c == 'a' {
        'A'
    } else if c == 'b' {
        'B'
    } else if c == 'c' {
        'C'
    } else if c == 'd' {
        'D'
    } else if c == 'e' {
        'E'
    } else if c == 'f' {
        'F'
    } else {
        c
    }
}

/// EIP-55 mixed case: each letter of the lowercase hex is uppercased where the
/// checksum digest's half-byte at its position is 8 or more.
pub open spec fn eip55(hex: Seq<char>, checksum: Seq<u8>) -> Seq<char> {
    Seq::new(
        hex.len(),
        |i: int|
            if '0' <= hex[i] && hex[i] <= '9' {
                hex[i]
            } else if nibble(checksum, i) >= 8 {
                hex_upper(hex[i])
            } else {
                hex[i]
            },
    )
}

/// Applies the EIP-55 mixed case to lowercase hex, given the Keccak-256 digest of
/// that hex's ASCII text.
pub fn eip55_checksum(lower: &str, checksum: &[u8; 32]) -> (r: String)
    requires
        lower@.len() <= 64,
    ensures
        r@ == eip55(lower@, checksum@),
{
    let len = lower.unicode_len();
    let ghost target = eip55(lower@, checksum@);
    let mut mixed: Vec<char> = Vec::new();
    let mut t: usize = 0;
    while t < len
        invariant
            t <= len,
            len == lower@.len(),
            len <= 64,
            target == eip55(lower@, checksum@),
            mixed@ =~= target.subrange(0, t as int),
        decreases len - t,
    {
        let c = lower.get_char(t);
        let half = if t % 2 == 0 {
            checksum[t / 2] / 16
        } else {
            checksum[t / 2] % 16
        };
        let out = if '0' <= c && c <= '9' {
            c
        } else if half >= 8 {
            upper_hex_letter(c)
        } else {
            c
        };
        mixed.push(out);
        t = t + 1;
    }
    assert(target.subrange(0, len as int) =~= target);
    string_from_chars(&mixed)
}

/// What `public_key_to_eth_address` returns: `0x` and the EIP-55 form of the last
/// 20 bytes of Keccak-256 over the key's uncompressed coordinates.
pub open spec fn spec_eth_address(public_key: Seq<char>) -> Result<Seq<char>, Error> {
    match parse_public_key(public_key) {
        Err(e) => Err(e),
        Ok(p) => {
            let body = keccak256_of(p.subrange(1, 33) + sec1_y(public_log(p))@)@.subrange(12, 32);
            let lower = hex_digits(body);
            Ok("0x"@ + eip55(lower, keccak256_of(ascii_bytes(lower))@))
        },
    }
}

fn upper_hex_letter(c: char) -> (r: char)
    ensures
        r == hex_upper(c),
{
    match c {
        'a' => 'A',
        'b' => 'B',
        'c' => 'C',
        'd' => 'D',
        'e' => 'E',
        'f' => 'F',
        _ => c,
    }
}

/// The Ethereum address of a compressed public key, with its EIP-55 checksum.
pub fn public_key_to_eth_address(public_key: &str) -> (r: Result<String, Error>)
    ensures
        match spec_eth_address(public_key@) {
            Ok(a) => r matches Ok(s) && s@ == a,
            Err(e) => r == Err::<String, Error>(e),
        },
{
    let key = match decode_public_key(public_key) {
        Ok(k) => k,
        Err(e) => return Err(e),
    };
    proof {
        lemma_public_log(key@);
    }
    let y = match point_y(&key) {
        Some(y) => y,
        None => return Err(Error::InvalidPublicKey),
    };
    let mut coordinates: Vec<u8> = Vec::new();
    let mut i: usize = 1;
    while i < 33
        invariant
            1 <= i <= 33,
            coordinates@ =~= key@.subrange(1, i as int),
        decreases 33 - i,
    {
        coordinates.push(key[i]);
        i = i + 1;
    }
    let mut j: usize = 0;
    while j < 32
        invariant
            j <= 32,
            coordinates@ =~= key@.subrange(1, 33) + y@.subrange(0, j as int),
        decreases 32 - j,
    {
        coordinates.push(y[j]);
        j = j + 1;
    }
    assert(y@.subrange(0, 32) =~= y@);
    let digest = keccak256(coordinates.as_slice());
    let mut body: Vec<u8> = Vec::new();
    let mut k: usize = 12;
    while k < 32
        invariant
            12 <= k <= 32,
            body@ =~= digest@.subrange(12, k as int),
        decreases 32 - k,
    {
        body.push(digest[k]);
        k = k + 1;
    }
    let lower = hex_encode(body.as_slice());
    let len = lower.as_str().unicode_len();
    let mut ascii: Vec<u8> = Vec::new();
    let mut m: usize = 0;
    while m < len
        invariant
            m <= len,
            len == lower@.len(),
            ascii@ =~= ascii_bytes(lower@).subrange(0, m as int),
        decreases len - m,
    {
        ascii.push(lower.as_str().get_char(m) as u8);
        m = m + 1;
    }
    assert(ascii_bytes(lower@).subrange(0, len as int) =~= ascii_bytes(lower@));
    let checksum = keccak256(ascii.as_slice());
    let tail = eip55_checksum(lower.as_str(), &checksum);
    let mut text = String::from_str("0x");
    text.append(tail.as_str());
    proof {
        reveal_strlit("0x");
    }
    Ok(text)
}

} // verus!
