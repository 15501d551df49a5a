//! The records that cross the library's interface: meta-addresses, stealth
//! addresses, commitments, viewing keys and encrypted payloads. Keys, points and
//! byte strings are `0x`-prefixed hex text.
use vstd::prelude::*;
use vstd::string::*;

verus! {

/// Bytes as `0x`-prefixed lowercase hex text.
pub type HexString = String;

/// A chain identifier, such as `ethereum` or `solana`.
pub type ChainId = String;

/// A recipient's long-lived public identity: two compressed public keys and a chain.
#[derive(Debug, Clone, PartialEq, Eq)]
pub struct StealthMetaAddress {
    /// Compressed spending public key (33 bytes).
    pub spending_key: String,
    /// Compressed viewing public key (33 bytes).
    pub viewing_key: String,
    /// The chain that the address is for.
    pub chain: String,
    /// Optional human-readable label.
    pub label: Option<String>,
}

impl StealthMetaAddress {
    /// A meta-address without label.
    pub fn new(spending_key: String, viewing_key: String, chain: String) -> (r: Self)
        ensures
            r.spending_key@ == spending_key@,
            r.viewing_key@ == viewing_key@,
            r.chain@ == chain@,
            r.label is None,
    {
        StealthMetaAddress { spending_key, viewing_key, chain, label: None }
    }

    /// A meta-address with a label.
    pub fn with_label(spending_key: String, viewing_key: String, chain: String, label: String) -> (r: Self)
        ensures
            r.spending_key@ == spending_key@,
            r.viewing_key@ == viewing_key@,
            r.chain@ == chain@,
            r.label matches Some(l) && l@ == label@,
    {
        StealthMetaAddress { spending_key, viewing_key, chain, label: Some(label) }
    }
}

/// A one-time address derived for one transfer.
#[derive(Debug, Clone, PartialEq, Eq)]
pub struct StealthAddress {
    /// The one-time address (compressed public key).
    pub address: String,
    /// The sender's ephemeral public key.
    pub ephemeral_public_key: String,
    /// First byte of the shared-secret digest, to filter candidates cheaply.
    pub view_tag: u8,
}

/// What the recipient recovers to spend from a stealth address.
#[derive(Debug, Clone, PartialEq, Eq)]
pub struct StealthAddressRecovery {
    /// The stealth address being recovered.
    pub stealth_address: String,
    /// The ephemeral public key that derived it.
    pub ephemeral_public_key: String,
    /// The private key that spends from it.
    pub private_key: String,
}

/// A Pedersen commitment with its blinding factor.
#[derive(Debug, Clone, PartialEq, Eq)]
pub struct PedersenCommitment {
    /// The commitment point (compressed, 33 bytes).
    pub commitment: String,
    /// The blinding factor (32 bytes, secret).
    pub blinding: String,
}

/// A symmetric key for selective disclosure.
#[derive(Debug, Clone, PartialEq, Eq)]
pub struct ViewingKey {
    /// The key (32 bytes).
    pub key: String,
    /// SHA-256 of the key, the only part fit to publish.
    pub key_hash: String,
    /// Creation time in milliseconds since the Unix epoch.
    pub created_at: u64,
    /// Optional human-readable label.
    pub label: Option<String>,
}

/// How much of a transfer is disclosed.
#[derive(Debug, Clone, Copy, PartialEq, Eq, Hash, Structural)]
pub enum PrivacyLevel {
    /// Everything is public.
    Transparent,
    /// Sender, amount and recipient are hidden.
    Shielded,
    /// Hidden, with a viewing key for auditors.
    Compliant,
}

/// The lowercase name of each privacy level.
pub open spec fn privacy_level_name(level: PrivacyLevel) -> Seq<char> {
    match level {
        PrivacyLevel::Transparent => "transparent"@,
        PrivacyLevel::Shielded => "shielded"@,
        PrivacyLevel::Compliant => "compliant"@,
    }
}

/// The Unicode lowercase of a string.
pub uninterp spec fn lowercase_of(s: Seq<char>) -> Seq<char>;

/// Relies on str::to_lowercase: the result depends on the characters alone.
#[verifier::external_body]
pub(crate) fn to_lowercase(s: &str) -> (r: String)
    ensures
        r@ == lowercase_of(s@),
{
    s.to_lowercase()
}

/// Relies on String's FromIterator<char>: the string of the characters, in order.
#[verifier::external_body]
pub(crate) fn string_from_chars(chars: &Vec<char>) -> (r: String)
    ensures
        r@ == chars@,
{
    chars.iter().collect()
}

/// Whether two strings hold the same characters.
pub(crate) fn str_eq(a: &str, b: &str) -> (r: bool)
    ensures
        r == (a@ == b@),
{
    let n = a.unicode_len();
    if n != b.unicode_len() {
        return false;
    }
    let mut i: usize = 0;
    while i < n
        invariant
            i <= n,
            n == a@.len(),
            n == b@.len(),
            forall|j: int| 0 <= j < i ==> a@[j] == b@[j],
        decreases n - i,
    {
        if a.get_char(i) != b.get_char(i) {
            return false;
        }
        i = i + 1;
    }
    assert(a@ =~= b@);
    true
}

/// The privacy level that a lowercase name selects.
pub open spec fn spec_privacy_level_of(name: Seq<char>) -> Option<PrivacyLevel> {
    if name == "transparent"@ {
        Some(PrivacyLevel::Transparent)
    } else if name == "shielded"@ {
        Some(PrivacyLevel::Shielded)
    } else if name == "compliant"@ {
        Some(PrivacyLevel::Compliant)
    } else {
        None
    }
}

impl PrivacyLevel {
    /// The level's lowercase name.
    pub fn as_str(&self) -> (r: &'static str)
        ensures
            r@ == privacy_level_name(*self),
    {
        match self {
            PrivacyLevel::Transparent => "transparent",
            PrivacyLevel::Shielded => "shielded",
            PrivacyLevel::Compliant => "compliant",
        }
    }

    /// The level named by `s`, in any case; the error repeats the name.
    pub fn parse(s: &str) -> (r: Result<PrivacyLevel, String>)
        ensures
            match spec_privacy_level_of(lowercase_of(s@)) {
                Some(level) => r == Ok::<PrivacyLevel, String>(level),
                None => r matches Err(e) && e@ == "Invalid privacy level: "@ + s@,
            },
    {
        let lower = to_lowercase(s);
        if str_eq(lower.as_str(), "transparent") {
            Ok(PrivacyLevel::Transparent)
        } else if str_eq(lower.as_str(), "shielded") {
            Ok(PrivacyLevel::Shielded)
        } else if str_eq(lower.as_str(), "compliant") {
            Ok(PrivacyLevel::Compliant)
        } else {
            let mut message = String::from_str("Invalid privacy level: ");
            message.append(s);
            Err(message)
        }
    }
}

impl std::str::FromStr for PrivacyLevel {
    type Err = String;

    fn from_str(s: &str) -> Result<PrivacyLevel, String> {
        PrivacyLevel::parse(s)
    }
}

/// Encrypted data with the nonce that decrypts it.
#[derive(Debug, Clone, PartialEq, Eq)]
pub struct EncryptedPayload {
    /// The ciphertext with its authentication tag.
    pub ciphertext: String,
    /// The 24-byte nonce.
    pub nonce: String,
}

} // verus!
