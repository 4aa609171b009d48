//! Recovering the parts of a backup: where each is stored, and what its
//! downloaded data gives once checked and decrypted.

use vstd::prelude::*;
use vstd::string::*;
use crate::backup::encrypt::{chunk_len, chunk_limit, decrypt, decryptable_layout, spec_decrypt};
use crate::backup::errors::BackupError;
use crate::backup::structures::BackupPart;
use crate::configuration::DEFAULT_BUFFER_SIZE;
use crate::hash::spec_sha3;
use crate::addresses::{described_address, spec_described_address};
use crate::restore::utility::check_signature;

verus! {

/// The address of the provider a part was stored on, read from the part's
/// provider description (`name (address)`). A description that does not name
/// an address makes the snapshot invalid.
pub fn part_provider_url(part: &BackupPart) -> (res: Result<String, BackupError>)
    ensures
        res is Ok <==> spec_described_address(part.provider@) is Some,
        res matches Ok(u) ==> spec_described_address(part.provider@) == Some(u@),
        res is Err ==> res matches Err(BackupError::InvalidSnapshotFile),
{
    match described_address(part.provider.as_str()) {
        Some(url) => Ok(url),
        None => Err(BackupError::InvalidSnapshotFile),
    }
}

/// Whether data lays out as chunks that decryption can read: each a 24-byte
/// nonce followed by at most a buffer of ciphertext.
pub fn has_decryptable_layout(data: &[u8]) -> (res: bool)
    ensures
        res == decryptable_layout(data@),
{
    let len = data.len();
    let limit = DEFAULT_BUFFER_SIZE as usize + 16;
    let mut pos: usize = 0;
    assert(data@.skip(0) =~= data@);
    while pos < len
        invariant
            len == data@.len(),
            pos <= len,
            limit == chunk_limit(),
            decryptable_layout(data@) == decryptable_layout(data@.skip(pos as int)),
        decreases len - pos,
    {
        let ghost d = data@.skip(pos as int);
        if len - pos < 24 {
            return false;
        }
        let remaining = len - pos - 24;
        let upper = if remaining < limit {
            remaining
        } else {
            limit
        };
        assert(upper == chunk_len((d.len() - 24) as nat));
        assert(data@.skip((pos + 24 + upper) as int) =~= d.skip(24 + upper as int));
        pos = pos + 24 + upper;
    }
    assert(data@.skip(pos as int).len() == 0);
    true
}

/// Checks a downloaded part against its signature and, for an encrypted
/// backup, decrypts it with the backup's key.
pub fn verify_part(part: &BackupPart, data: Vec<u8>, encrypted: bool, key: Option<[u8; 32]>) -> (res: Result<Vec<u8>, BackupError>)
    requires
        encrypted && spec_sha3(data@) == part.signature@ ==> key is Some && decryptable_layout(data@),
    ensures
        spec_sha3(data@) != part.signature@ ==> res matches Err(BackupError::InvalidSignature),
        spec_sha3(data@) == part.signature@ && !encrypted ==> (res matches Ok(d) && d@ == data@),
        spec_sha3(data@) == part.signature@ && encrypted ==> match spec_decrypt(key.unwrap()@, data@) {
            Some(p) => (res matches Ok(d) && d@ == p),
            None => res matches Err(BackupError::CannotDecrypt(_)),
        },
{
    if !check_signature(part.signature.as_str(), data.as_slice()) {
        return Err(BackupError::InvalidSignature);
    }
    if encrypted {
        match key {
            Some(k) => decrypt(data.as_slice(), k),
            None => Err(BackupError::NoKeyProvided),
        }
    } else {
        Ok(data)
    }
}

} // verus!
