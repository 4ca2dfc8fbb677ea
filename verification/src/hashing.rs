//! Trusted boundary to SHA-256 (the `sha2` crate) and hexadecimal
//! rendering (the `hex` crate). The digest itself is named, not restated:
//! `sha256_of` stands for the function of the input bytes alone that
//! SHA-256 computes.
use vstd::prelude::*;
use crate::digits::hex_of_bytes;

verus! {

/// The SHA-256 digest of a byte sequence.
pub uninterp spec fn sha256_of(data: Seq<u8>) -> Seq<u8>;

/// Relies on `sha2::Sha256::digest`: the digest is a function of the
/// input bytes alone and is 32 bytes long.
#[verifier::external_body]
pub(crate) fn sha256(data: &[u8]) -> (r: Vec<u8>)
    ensures
        r@ == sha256_of(data@),
        r@.len() == 32,
{
    <sha2::Sha256 as sha2::Digest>::digest(data).to_vec()
}

/// Relies on `hex::encode`: two lowercase hexadecimal characters for each
/// byte, in order.
#[verifier::external_body]
pub(crate) fn hex_encode(b: &[u8]) -> (r: String)
    ensures
        r@ == hex_of_bytes(b@),
{
    hex::encode(b)
}

} // verus!
