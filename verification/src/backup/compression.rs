//! Compressing archives with zlib, and collecting the outcome of the work done
//! on each archive.

use std::io::{Read, Write};
use flate2::read::ZlibDecoder;
use flate2::write::ZlibEncoder;
use flate2::Compression;
use vstd::prelude::*;
use vstd::string::*;
use crate::backup::errors::{backup_error_message, BackupError};
use crate::backup::plan::CompressionLevel;

verus! {

/// The complete zlib stream of `data` at the given level (0 to 9), as the
/// `flate2` crate writes it.
pub uninterp spec fn zlib_compressed(level: u32, data: Seq<u8>) -> Seq<u8>;

/// The data a zlib stream holds, as the `flate2` crate reads it, or nothing
/// when the stream cannot be read.
pub uninterp spec fn zlib_decompressed(stream: Seq<u8>) -> Option<Seq<u8>>;

/// The zlib level of a compression choice.
pub open spec fn level_number(level: CompressionLevel) -> u32 {
    match level {
        CompressionLevel::Fast => 1,
        CompressionLevel::Best => 9,
    }
}

/// `flate2::write::ZlibEncoder` over a vector: `write_all` then `finish`. Writing
/// to memory cannot fail; the stream is complete, so reading it gives the data
/// back.
#[verifier::external_body]
fn deflate(data: &[u8], level: u32) -> (res: Vec<u8>)
    requires
        level <= 9,
    ensures
        res@ == zlib_compressed(level, data@),
        zlib_decompressed(res@) == Some(data@),
{
    let mut encoder = ZlibEncoder::new(Vec::new(), Compression::new(level));
    encoder.write_all(data).unwrap();
    encoder.finish().unwrap()
}

/// `flate2::read::ZlibDecoder` then `read_to_end`: the data the stream holds,
/// or nothing when it cannot be read.
#[verifier::external_body]
fn inflate(stream: &[u8]) -> (res: Option<Vec<u8>>)
    ensures
        res is Some <==> zlib_decompressed(stream@) is Some,
        res matches Some(d) ==> zlib_decompressed(stream@) == Some(d@),
{
    let mut decoder = ZlibDecoder::new(stream);
    let mut data = Vec::new();
    match decoder.read_to_end(&mut data) {
        Ok(_) => Some(data),
        Err(_) => None,
    }
}

/// Compresses data into a complete zlib stream, which decompresses back to it.
pub fn compress(data: &[u8], level: CompressionLevel) -> (res: Vec<u8>)
    ensures
        res@ == zlib_compressed(level_number(level), data@),
        zlib_decompressed(res@) == Some(data@),
{
    let number: u32 = match level {
        CompressionLevel::Fast => 1,
        CompressionLevel::Best => 9,
    };
    deflate(data, number)
}

/// Decompresses a zlib stream; a stream that cannot be read makes the archive
/// unreadable.
pub fn uncompress(stream: &[u8]) -> (res: Result<Vec<u8>, BackupError>)
    ensures
        match zlib_decompressed(stream@) {
            Some(d) => res matches Ok(x) && x@ == d,
            None => res matches Err(BackupError::CannotReadFile(_)),
        },
{
    match inflate(stream) {
        Some(data) => Ok(data),
        None => Err(BackupError::CannotReadFile(String::from_str("The archive is not a valid zlib stream"))),
    }
}

/// The work on the archive at `i` failed, or its size could not be read.
pub open spec fn entry_fails(result: Seq<Result<String, BackupError>>, sizes: Seq<Result<u64, String>>, i: int) -> bool {
    result[i] is Err || sizes[i] is Err
}

/// The archive at `k` is the first whose work or size failed.
pub open spec fn first_failure(result: Seq<Result<String, BackupError>>, sizes: Seq<Result<u64, String>>, k: int) -> bool {
    &&& 0 <= k < result.len()
    &&& entry_fails(result, sizes, k)
    &&& forall|j: int| 0 <= j < k ==> !entry_fails(result, sizes, j)
}

/// The sum of the sizes that were read.
pub open spec fn size_total(sizes: Seq<Result<u64, String>>) -> int
    decreases sizes.len(),
{
    if sizes.len() == 0 {
        0
    } else {
        size_total(sizes.drop_last()) + match sizes.last() {
            Ok(n) => n as int,
            Err(_) => 0int,
        }
    }
}

/// Ensures that no errors occurred while working on the archives, returning
/// their total size and their paths. `sizes[i]` is the size of the archive of
/// `result[i]`, read from disk. The first failure, in order, is returned: a
/// failed task as a general error carrying its description, a size that could
/// not be read as an unreadable file.
pub fn ensure_no_errors_counting_size(
    result: Vec<Result<String, BackupError>>,
    sizes: Vec<Result<u64, String>>,
) -> (res: Result<(u64, Vec<String>), BackupError>)
    requires
        result@.len() == sizes@.len(),
        forall|k: int|
            0 <= k <= sizes@.len() && (forall|j: int| 0 <= j < k ==> !entry_fails(result@, sizes@, j))
                ==> size_total(#[trigger] sizes@.take(k)) <= u64::MAX,
    ensures
        (forall|i: int| 0 <= i < result@.len() ==> !entry_fails(result@, sizes@, i)) ==> (res matches Ok(r)
            && r.0 == size_total(sizes@) && r.1@.len() == result@.len() && forall|i: int|
            0 <= i < result@.len() ==> result@[i] == Ok::<String, BackupError>(#[trigger] r.1@[i])),
        forall|k: int| #[trigger] first_failure(result@, sizes@, k) ==> match result@[k] {
            Err(e) => res matches Err(BackupError::GeneralError(m)) && m@ == backup_error_message(e),
            Ok(_) => res == Err::<(u64, Vec<String>), BackupError>(BackupError::CannotReadFile(sizes@[k]->Err_0)),
        },
{
    let mut container: Vec<String> = Vec::new();
    let mut size: u64 = 0;
    let mut i: usize = 0;
    while i < result.len()
        invariant
            i <= result@.len(),
            result@.len() == sizes@.len(),
            forall|k: int|
                0 <= k <= sizes@.len() && (forall|j: int| 0 <= j < k ==> !entry_fails(result@, sizes@, j))
                    ==> size_total(#[trigger] sizes@.take(k)) <= u64::MAX,
            forall|j: int| 0 <= j < i ==> !entry_fails(result@, sizes@, j),
            size == size_total(sizes@.take(i as int)),
            container@.len() == i,
            forall|j: int| 0 <= j < i ==> result@[j] == Ok::<String, BackupError>(#[trigger] container@[j]),
        decreases result@.len() - i,
    {
        match &result[i] {
            Err(e) => {
                let m = e.message();
                assert(first_failure(result@, sizes@, i as int));
                return Err(BackupError::GeneralError(m));
            },
            Ok(path) => {
                match &sizes[i] {
                    Err(m) => {
                        assert(first_failure(result@, sizes@, i as int));
                        return Err(BackupError::CannotReadFile(m.clone()));
                    },
                    Ok(n) => {
                        assert(sizes@.take(i + 1).drop_last() =~= sizes@.take(i as int));
                        assert(!entry_fails(result@, sizes@, i as int));
                        assert(size_total(sizes@.take(i + 1)) <= u64::MAX);
                        container.push(path.clone());
                        size = size + *n;
                    },
                }
            },
        }
        i = i + 1;
    }
    assert(sizes@.take(i as int) =~= sizes@);
    Ok((size, container))
}

} // verus!
