//! SHA3 digests rendered as hexadecimal text: SHA3-256 signs backup parts,
//! SHA3-512 identifies file contents.

use vstd::prelude::*;
use sha3::{Digest, Sha3_256, Sha3_512};
use crate::text::{ascii_chars, hex_lower, to_hex_lower};

verus! {

/// The SHA3-256 digest of `data`, as the `sha3` crate computes it.
pub uninterp spec fn sha3_256_digest(data: Seq<u8>) -> Seq<u8>;

/// `Sha3_256::new`, `update` and `finalize` from the `sha3` crate: the digest of
/// `data`, which is 32 bytes long.
#[verifier::external_body]
fn sha3_256(data: &[u8]) -> (res: Vec<u8>)
    ensures
        res@ == sha3_256_digest(data@),
        res@.len() == 32,
{
    let mut hasher = Sha3_256::new();
    hasher.update(data);
    hasher.finalize().to_vec()
}

/// The lowercase hexadecimal text of the SHA3-256 digest of `data`.
pub open spec fn spec_sha3(data: Seq<u8>) -> Seq<char> {
    ascii_chars(hex_lower(sha3_256_digest(data)))
}

/// Hashes the data using the SHA3 algorithm
pub fn sha3(data: &[u8]) -> (res: String)
    ensures
        res@ == spec_sha3(data@),
        res@.len() == 64,
{
    let digest = sha3_256(data);
    to_hex_lower(digest.as_slice())
}

/// The SHA3-512 digest of `data`, as the `sha3` crate computes it.
pub uninterp spec fn sha3_512_digest(data: Seq<u8>) -> Seq<u8>;

/// `Sha3_512::new`, `update` and `finalize` from the `sha3` crate: the digest
/// of `data`, which is 64 bytes long.
#[verifier::external_body]
fn sha3_512(data: &[u8]) -> (res: Vec<u8>)
    ensures
        res@ == sha3_512_digest(data@),
        res@.len() == 64,
{
    let mut hasher = Sha3_512::new();
    hasher.update(data);
    hasher.finalize().to_vec()
}

/// The lowercase hexadecimal text of the SHA3-512 digest of `data`.
pub open spec fn spec_content_hash(data: Seq<u8>) -> Seq<char> {
    ascii_chars(hex_lower(sha3_512_digest(data)))
}

/// Hashes file contents with SHA3-512: 128 hexadecimal characters.
pub fn content_hash(data: &[u8]) -> (res: String)
    ensures
        res@ == spec_content_hash(data@),
        res@.len() == 128,
{
    let digest = sha3_512(data);
    to_hex_lower(digest.as_slice())
}

} // verus!
