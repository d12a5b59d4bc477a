//! The digests used for storage-key derivation and topic compression.
//!
//! A digest is a pure function of its input alone, but far too large to state;
//! each one is therefore given a name (an uninterpreted spec function), and a
//! trusted wrapper around the hashing crate promises that the call returns the
//! named value.

use blake2::Digest;
use vstd::prelude::*;

verus! {

/// The 32-byte BLAKE2b digest of a byte string.
pub uninterp spec fn blake2b256_of(input: Seq<u8>) -> Seq<u8>;

/// The 16-byte BLAKE2b digest of a byte string.
pub uninterp spec fn blake2b128_of(input: Seq<u8>) -> Seq<u8>;

/// The SHA-256 digest of a byte string.
pub uninterp spec fn sha2_256_of(input: Seq<u8>) -> Seq<u8>;

/// The 32-byte Keccak digest of a byte string.
pub uninterp spec fn keccak256_of(input: Seq<u8>) -> Seq<u8>;

/// Relies on the `blake2` crate's `Blake2b256`: the digest depends on the
/// input bytes alone and is 32 bytes wide.
#[verifier::external_body]
pub(crate) fn blake2b_256(input: &[u8]) -> (r: [u8; 32])
    ensures
        r@ == blake2b256_of(input@),
{
    let digest = blake2::Blake2b256::digest(input);
    let mut out = [0u8; 32];
    out.copy_from_slice(&digest);
    out
}

/// Relies on the `blake2` crate's `Blake2b128`: the digest depends on the
/// input bytes alone and is 16 bytes wide.
#[verifier::external_body]
pub(crate) fn blake2b_128(input: &[u8]) -> (r: [u8; 16])
    ensures
        r@ == blake2b128_of(input@),
{
    let digest = blake2::Blake2b128::digest(input);
    let mut out = [0u8; 16];
    out.copy_from_slice(&digest);
    out
}

/// Relies on the `sha2` crate's `Sha256`: the digest depends on the input
/// bytes alone and is 32 bytes wide.
#[verifier::external_body]
pub(crate) fn sha2_256(input: &[u8]) -> (r: [u8; 32])
    ensures
        r@ == sha2_256_of(input@),
{
    let digest = sha2::Sha256::digest(input);
    let mut out = [0u8; 32];
    out.copy_from_slice(&digest);
    out
}

/// Relies on the `sha3` crate's `Keccak256`: the digest depends on the input
/// bytes alone and is 32 bytes wide.
#[verifier::external_body]
pub(crate) fn keccak_256(input: &[u8]) -> (r: [u8; 32])
    ensures
        r@ == keccak256_of(input@),
{
    let digest = sha3::Keccak256::digest(input);
    let mut out = [0u8; 32];
    out.copy_from_slice(&digest);
    out
}

} // verus!
