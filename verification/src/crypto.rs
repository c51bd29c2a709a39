//! The cryptography that the module leans on.

use vstd::prelude::*;
use sp_core::sr25519::{Public, Signature};

verus! {

/// The length of a public key.
pub const PUBLIC_KEY_LENGTH: usize = 32;

/// A BABE public key.
pub type BabeKey = [u8; PUBLIC_KEY_LENGTH];

/// The identity of an authority: its sr25519 public key.
pub type AuthorityId = BabeKey;

/// A signature of an authority.
pub type AuthoritySignature = [u8; 64];

/// The 256-bit BLAKE2b hash of `data`.
pub uninterp spec fn blake2_256_hash(data: Seq<u8>) -> Seq<u8>;

/// Whether `signature` is a good sr25519 signature by `key` on `message`.
pub uninterp spec fn sr25519_good(signature: Seq<u8>, message: Seq<u8>, key: Seq<u8>) -> bool;

/// Hashes `data`.
///
/// Calls `sp_io::hashing::blake2_256`. The hash is a function of the data alone, and has the
/// name `blake2_256_hash`.
#[verifier::external_body]
pub(crate) fn blake2_256(data: &[u8]) -> (r: [u8; 32])
    ensures
        r@ == blake2_256_hash(data@),
{
    sp_io::hashing::blake2_256(data)
}

/// Verifies a signature.
///
/// Calls `sp_io::crypto::sr25519_verify`. The verdict is a function of the signature, the
/// message and the key alone, and has the name `sr25519_good`.
#[verifier::external_body]
pub(crate) fn sr25519_verify(
    signature: &AuthoritySignature,
    message: &[u8],
    key: &AuthorityId,
) -> (r: bool)
    ensures
        r == sr25519_good(signature@, message@, key@),
{
    sp_io::crypto::sr25519_verify(
        &Signature::from_raw(*signature),
        message,
        &Public::from_raw(*key),
    )
}

} // verus!
