//! Privacy layer for shielded transfers: Pedersen commitments on secp256k1,
//! stealth addresses, viewing-key disclosure and the proof envelope format.
pub mod accumulator;
pub mod commitment;
pub mod commitment_format;
pub mod crypto;
pub mod curve;
pub mod error;
pub mod optimizations;
pub mod privacy;
pub mod stealth;
pub mod types;
pub mod zk_verifier;

pub use commitment::{
    add_blindings, add_commitments, commit, commit_with_blinding, commit_zero, generate_blinding,
    generate_h, get_generators, subtract_blindings, subtract_commitments, verify_opening,
};
pub use crypto::{bytes_to_hex, generate_intent_id, generate_random_bytes, hash_sha256, hex_to_bytes};
pub use error::Error;
pub use privacy::{
    decrypt_with_viewing_key, derive_viewing_key_hash, encrypt_for_viewing_key, generate_viewing_key,
    should_encrypt, should_include_viewing_key,
};
pub use stealth::{
    check_stealth_address, decode_stealth_meta_address, derive_stealth_private_key,
    encode_stealth_meta_address, generate_stealth_address, generate_stealth_meta_address,
    public_key_to_eth_address,
};
pub use types::{
    EncryptedPayload, PedersenCommitment, PrivacyLevel, StealthAddress, StealthAddressRecovery,
    StealthMetaAddress, ViewingKey,
};
