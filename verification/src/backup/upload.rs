//! Splitting archives into parts and choosing where each part goes.

use vstd::prelude::*;
use vstd::string::*;
use crate::backup::errors::BackupError;
use crate::backup::structures::BackupPart;
use crate::hash::{sha3, spec_sha3};
use crate::byte_size::{GIGABYTE, KILOBYTE, MEGABYTE};
use crate::configuration::{Args, SizeUnit};
use crate::ids::{create_id, is_id};
use crate::padding::{pad_number, spec_pad_number};
use crate::storage_providers::github::{secret_url, Provider};
use crate::storage_providers::provider::StorageProvider;
use crate::text::{decimal, decimal_digits, lemma_decimal_digits_ascii, push_decimal};

verus! {

/// The number of bytes in one unit of size.
pub open spec fn unit_bytes(unit: SizeUnit) -> nat {
    match unit {
        SizeUnit::Kilobytes => KILOBYTE as nat,
        SizeUnit::Megabytes => MEGABYTE as nat,
        SizeUnit::Gigabytes => GIGABYTE as nat,
    }
}

/// The size of the parts an archive is split into, in bytes.
pub fn compute_split_size(args: &Args) -> (res: u64)
    ensures
        res == args.split_size * unit_bytes(args.split_unit),
{
    match args.split_unit {
        SizeUnit::Kilobytes => args.split_size as u64 * KILOBYTE,
        SizeUnit::Megabytes => args.split_size as u64 * MEGABYTE,
        SizeUnit::Gigabytes => args.split_size as u64 * GIGABYTE,
    }
}

/// How many parts a file of `file_length` bytes is split into: the number of
/// whole parts, plus one for what is left.
pub fn compute_maximum_parts_number(file_length: u64, split_size: u64) -> (res: u64)
    requires
        split_size > 0,
    ensures
        res == file_length / split_size + (if file_length % split_size != 0 { 1int } else { 0int }),
        res * split_size >= file_length,
        (res - 1) * split_size < file_length || res == 0,
{
    let mut max_parts = file_length / split_size;
    if file_length % split_size != 0 {
        assert(max_parts < u64::MAX) by (nonlinear_arith)
            requires
                split_size > 1,
                max_parts == file_length / split_size,
                file_length <= u64::MAX,
        ;
        max_parts = max_parts + 1;
    }
    assert(max_parts * split_size >= file_length && ((max_parts - 1) * split_size < file_length || max_parts == 0)) by (nonlinear_arith)
        requires
            split_size > 0,
            max_parts == file_length / split_size + (if file_length % split_size != 0 { 1int } else { 0int }),
    {
        assert(file_length == split_size * (file_length / split_size) + file_length % split_size);
    }
    max_parts
}

/// The number of digits part numbers are padded to: the length of the
/// decimal rendering of the number of parts.
pub fn part_padding_length(max_parts: u64) -> (res: usize)
    ensures
        res == decimal(max_parts as nat).len(),
{
    let mut digits: Vec<u8> = Vec::new();
    push_decimal(max_parts, &mut digits);
    assert(digits@ =~= decimal_digits(max_parts as nat));
    digits.len()
}

/// The path a part is stored under: a fresh identifier, `.gitup.part` and the
/// part's number padded with zeros.
pub fn part_path(part_index: u32, padding_length: usize) -> (res: String)
    ensures
        exists|id: Seq<char>| is_id(id) && res@ == id + ".gitup.part"@ + spec_pad_number(part_index, padding_length as nat),
{
    let id = create_id();
    let mut path = id.clone();
    path.append(".gitup.part");
    path.append(pad_number(part_index, padding_length).as_str());
    assert(is_id(id@));
    path
}

/// The provider at `i` is the first from `start` on with room for `size` bytes.
pub open spec fn first_with_room(providers: Seq<Provider>, start: int, size: u64, i: int) -> bool {
    &&& start <= i < providers.len()
    &&& size <= providers[i].available()
    &&& forall|j: int| start <= j < i ==> (#[trigger] providers[j]).available() < size
}

/// The provider a part of `size` bytes goes to next, trying them in order from
/// `start`: the first with room for it. When none has room, the part cannot be
/// stored.
pub fn next_valid_provider(providers: &Vec<Provider>, start: usize, size: u64) -> (res: Result<usize, BackupError>)
    ensures
        res matches Ok(i) ==> first_with_room(providers@, start as int, size, i as int),
        res is Err <==> forall|j: int| start <= j < providers@.len() ==> (#[trigger] providers@[j]).available() < size,
        res is Err ==> res matches Err(BackupError::NotEnoughSpace),
{
    let mut i = start;
    while i < providers.len()
        invariant
            start <= i,
            forall|j: int| start <= j < i ==> (#[trigger] providers@[j]).available() < size,
        decreases providers@.len() - i,
    {
        if providers[i].get_available_space() >= size {
            return Ok(i);
        }
        i = i + 1;
    }
    Err(BackupError::NotEnoughSpace)
}

/// The record of a part uploaded to a provider: its size, path, signature
/// (the SHA3-256 digest of its data) and the provider's description.
pub fn new_part(data: &[u8], path: String, provider: &Provider) -> (res: BackupPart)
    ensures
        res.size == data@.len(),
        res.path == path,
        res.signature@ == spec_sha3(data@),
        res.provider@ == "GitHub ("@ + secret_url(provider.owner(), provider.repo()) + ")"@,
{
    BackupPart { size: data.len() as u64, path, signature: sha3(data), provider: provider.to_string() }
}

/// A number has no more decimal digits than any number at least as large.
proof fn lemma_decimal_len_monotonic(i: nat, j: nat)
    requires
        i <= j,
    ensures
        decimal(i).len() <= decimal(j).len(),
    decreases j,
{
    if j >= 10 {
        if i >= 10 {
            lemma_decimal_len_monotonic(i / 10, j / 10);
        } else {
            lemma_decimal_digits_ascii(j / 10);
        }
    }
}

/// Law: every part number of an archive, from the first to the number of
/// parts, is padded to the same width: the number of digits of the number of
/// parts.
pub proof fn law_part_numbers_have_equal_width(part_index: u32, max_parts: u64)
    requires
        part_index <= max_parts,
    ensures
        spec_pad_number(part_index, decimal(max_parts as nat).len()).len() == decimal(max_parts as nat).len(),
{
    lemma_decimal_len_monotonic(part_index as nat, max_parts as nat);
}

} // verus!
