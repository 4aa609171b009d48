//! Estimating the size of a backup's snapshot before it is written, to check
//! that the providers have room for the whole backup.

use vstd::prelude::*;
use vstd::string::*;
use vstd::utf8::*;
use crate::backup::file::{law_fragments_cover_file, planned_reads};
use crate::backup::structures::{BackupMetadata, BackupStats, FileBackupMetadata, FolderBackupMetadata};
use crate::backup::upload::{compute_maximum_parts_number, compute_split_size, part_padding_length, unit_bytes};
use crate::configuration::Args;
use crate::ids::{create_id, is_id};
use crate::text::decimal;

verus! {

/// The address format of storage providers, whose length bounds a part's
/// provider description.
pub const PROVIDER_URL_TEMPLATE: &'static str = "gitup://<auth-token>:<provider-name>/<provider-dependant-fragments>";

/// The number of bytes of a text.
pub open spec fn text_len(s: String) -> nat {
    encode_utf8(s@).len()
}

/// The length in bytes of a text, as `len` gives it.
fn byte_len(s: &String) -> (res: usize)
    ensures
        res == text_len(*s),
{
    s.as_str().as_bytes().len()
}

/// The estimated size of a file's metadata: two numbers and three texts.
pub open spec fn file_meta_size(m: FileBackupMetadata) -> nat {
    16 + text_len(m.id) + text_len(m.original_path) + text_len(m.hash)
}

/// The estimated size of the files of a folder, each with its identifier.
pub open spec fn files_size(files: Seq<(String, FileBackupMetadata)>) -> nat
    decreases files.len(),
{
    if files.len() == 0 {
        0
    } else {
        files_size(files.drop_last()) + text_len(files.last().0) + file_meta_size(files.last().1)
    }
}

/// The estimated size of a folder's metadata: a number, two texts and its files.
pub open spec fn folder_meta_size(m: FolderBackupMetadata) -> nat {
    8 + text_len(m.id) + text_len(m.original_path) + files_size(m.files@)
}

/// The estimated size of the folders, each with its identifier.
pub open spec fn tree_size(tree: Seq<(String, FolderBackupMetadata)>) -> nat
    decreases tree.len(),
{
    if tree.len() == 0 {
        0
    } else {
        tree_size(tree.drop_last()) + text_len(tree.last().0) + folder_meta_size(tree.last().1)
    }
}

/// The estimated size of the reverse lookup: both texts of every pair.
pub open spec fn lookup_size(lookup: Seq<(String, String)>) -> nat
    decreases lookup.len(),
{
    if lookup.len() == 0 {
        0
    } else {
        lookup_size(lookup.drop_last()) + text_len(lookup.last().0) + text_len(lookup.last().1)
    }
}

/// The estimated size of the description of `n` parts whose paths, without
/// their number, are `sample_path_len` bytes long: a number, the path, a
/// 64-character signature and three provider addresses each.
pub open spec fn spec_parts_size(n: nat, sample_path_len: nat) -> nat
    decreases n,
{
    if n == 0 {
        0
    } else {
        let i = (n - 1) as nat;
        (spec_parts_size(i, sample_path_len) + 8 + sample_path_len + decimal(i).len() + 64 + PROVIDER_URL_TEMPLATE.len() * 3) as nat
    }
}

/// The size of the backup as uploaded: encrypted, else compressed if it was,
/// else archived.
pub open spec fn spec_backup_size(metadata: BackupMetadata) -> u64 {
    if metadata.encrypted {
        metadata.stats.encrypted_size
    } else if metadata.stats.compressed_size != 0 {
        metadata.stats.compressed_size
    } else {
        metadata.stats.archival_size
    }
}

/// The size of the parts, in bytes.
pub open spec fn split_bytes(args: Args) -> nat {
    (args.split_size as nat) * unit_bytes(args.split_unit)
}

/// The number of parts a backup of `size` bytes is split into.
pub open spec fn parts_count(size: nat, split_size: nat) -> nat {
    (size / split_size + (if size % split_size != 0 { 1int } else { 0int })) as nat
}

/// The bytes a sample part path takes before its number: an identifier and `.gitup.part`.
pub open spec fn sample_path_len(id: Seq<char>) -> nat {
    encode_utf8(id + ".gitup.part"@).len()
}

/// The estimated size of the snapshot without its parts: three numbers, a
/// flag, the key record, nine stats, the tree and the reverse lookup.
pub open spec fn snapshot_fixed_size(metadata: BackupMetadata) -> nat {
    let key = match metadata.key {
        Some(k) => text_len(k),
        None => 0,
    };
    25 + key + 72 + tree_size(metadata.tree@) + lookup_size(metadata.reverse_lookup@)
}

proof fn lemma_files_size_prefix(files: Seq<(String, FileBackupMetadata)>, i: int)
    requires
        0 <= i <= files.len(),
    ensures
        files_size(files.take(i)) <= files_size(files),
    decreases files.len(),
{
    if i < files.len() {
        assert(files.drop_last().take(i) =~= files.take(i));
        lemma_files_size_prefix(files.drop_last(), i);
    } else {
        assert(files.take(i) =~= files);
    }
}

proof fn lemma_tree_size_prefix(tree: Seq<(String, FolderBackupMetadata)>, i: int)
    requires
        0 <= i <= tree.len(),
    ensures
        tree_size(tree.take(i)) <= tree_size(tree),
    decreases tree.len(),
{
    if i < tree.len() {
        assert(tree.drop_last().take(i) =~= tree.take(i));
        lemma_tree_size_prefix(tree.drop_last(), i);
    } else {
        assert(tree.take(i) =~= tree);
    }
}

proof fn lemma_lookup_size_prefix(lookup: Seq<(String, String)>, i: int)
    requires
        0 <= i <= lookup.len(),
    ensures
        lookup_size(lookup.take(i)) <= lookup_size(lookup),
    decreases lookup.len(),
{
    if i < lookup.len() {
        assert(lookup.drop_last().take(i) =~= lookup.take(i));
        lemma_lookup_size_prefix(lookup.drop_last(), i);
    } else {
        assert(lookup.take(i) =~= lookup);
    }
}

proof fn lemma_parts_size_monotonic(i: nat, n: nat, sample: nat)
    requires
        i <= n,
    ensures
        spec_parts_size(i, sample) <= spec_parts_size(n, sample),
    decreases n,
{
    if i < n {
        lemma_parts_size_monotonic(i, (n - 1) as nat, sample);
    }
}

/// The estimated size of a file's metadata.
fn estimate_file_backup_metadata_size(metadata: &FileBackupMetadata) -> (res: usize)
    requires
        file_meta_size(*metadata) <= usize::MAX,
    ensures
        res == file_meta_size(*metadata),
{
    16 + byte_len(&metadata.id) + byte_len(&metadata.original_path) + byte_len(&metadata.hash)
}

/// The estimated size of a folder's metadata.
fn estimate_folder_backup_metadata_size(metadata: &FolderBackupMetadata) -> (res: usize)
    requires
        folder_meta_size(*metadata) <= usize::MAX,
    ensures
        res == folder_meta_size(*metadata),
{
    let mut total_size: usize = 8 + byte_len(&metadata.id) + byte_len(&metadata.original_path);
    let mut j: usize = 0;
    while j < metadata.files.len()
        invariant
            j <= metadata.files@.len(),
            folder_meta_size(*metadata) <= usize::MAX,
            total_size == 8 + text_len(metadata.id) + text_len(metadata.original_path) + files_size(
                metadata.files@.take(j as int),
            ),
        decreases metadata.files@.len() - j,
    {
        proof {
            assert(metadata.files@.take(j + 1).drop_last() =~= metadata.files@.take(j as int));
            lemma_files_size_prefix(metadata.files@, j + 1);
        }
        let (name, file) = (&metadata.files[j].0, &metadata.files[j].1);
        total_size = total_size + byte_len(name) + estimate_file_backup_metadata_size(file);
        j = j + 1;
    }
    assert(metadata.files@.take(j as int) =~= metadata.files@);
    total_size
}

/// The estimated size of the stats: nine numbers.
fn estimate_backup_stats_size(stats: &BackupStats) -> (res: usize)
    ensures
        res == 72,
{
    72
}

/// The size of the backup as uploaded.
pub fn get_backup_size(metadata: &BackupMetadata) -> (res: u64)
    ensures
        res == spec_backup_size(*metadata),
{
    if metadata.encrypted {
        metadata.stats.encrypted_size
    } else if metadata.stats.compressed_size != 0 {
        metadata.stats.compressed_size
    } else {
        metadata.stats.archival_size
    }
}

/// The estimated size of the parts' descriptions, given the length of a
/// sample part path without its number.
pub fn estimate_parts_size_with(args: &Args, metadata: &BackupMetadata, sample_path_len: usize) -> (res: usize)
    requires
        args.split_size > 0,
        spec_parts_size(parts_count(spec_backup_size(*metadata) as nat, split_bytes(*args)), sample_path_len as nat) <= usize::MAX,
    ensures
        res == spec_parts_size(parts_count(spec_backup_size(*metadata) as nat, split_bytes(*args)), sample_path_len as nat),
{
    let size = compute_split_size(args);
    assert(size > 0) by (nonlinear_arith)
        requires
            size == args.split_size * unit_bytes(args.split_unit),
            args.split_size > 0,
            unit_bytes(args.split_unit) > 0,
    ;
    let backup_size = get_backup_size(metadata);
    let total_parts = compute_maximum_parts_number(backup_size, size);
    let ghost n = parts_count(backup_size as nat, size as nat);
    let mut total_size: usize = 0;
    let mut i: u64 = 0;
    while i < total_parts
        invariant
            i <= total_parts,
            total_parts == n,
            spec_parts_size(n, sample_path_len as nat) <= usize::MAX,
            total_size == spec_parts_size(i as nat, sample_path_len as nat),
        decreases total_parts - i,
    {
        proof {
            lemma_parts_size_monotonic((i + 1) as nat, n, sample_path_len as nat);
        }
        total_size = total_size + 8 + sample_path_len + part_padding_length(i) + 64 + PROVIDER_URL_TEMPLATE.len() * 3;
        i = i + 1;
    }
    total_size
}

/// The estimated size of the parts' descriptions, sampling a part path with a
/// fresh identifier.
pub fn estimate_parts_size(args: &Args, metadata: &BackupMetadata) -> (res: usize)
    requires
        args.split_size > 0,
        forall|id: Seq<char>| is_id(id) ==> spec_parts_size(parts_count(spec_backup_size(*metadata) as nat, split_bytes(*args)), #[trigger] sample_path_len(id)) <= usize::MAX,
    ensures
        exists|id: Seq<char>| is_id(id) && res == spec_parts_size(parts_count(spec_backup_size(*metadata) as nat, split_bytes(*args)), #[trigger] sample_path_len(id)),
{
    let mut sample = create_id();
    let ghost id = sample@;
    sample.append(".gitup.part");
    let sample_len = byte_len(&sample);
    assert(sample_len == sample_path_len(id));
    estimate_parts_size_with(args, metadata, sample_len)
}

/// Estimates the size of the snapshot of a backup, its parts' descriptions
/// sampled with a fresh identifier.
pub fn estimate_snapshot_size(args: &Args, metadata: &BackupMetadata) -> (res: usize)
    requires
        args.split_size > 0,
        forall|id: Seq<char>| is_id(id) ==> snapshot_fixed_size(*metadata) + spec_parts_size(parts_count(spec_backup_size(*metadata) as nat, split_bytes(*args)), #[trigger] sample_path_len(id)) <= usize::MAX,
    ensures
        exists|id: Seq<char>| is_id(id) && res == snapshot_fixed_size(*metadata) + spec_parts_size(parts_count(spec_backup_size(*metadata) as nat, split_bytes(*args)), #[trigger] sample_path_len(id)),
{
    let ghost bound = snapshot_fixed_size(*metadata);
    assert(is_id("aa"@)) by {
        reveal_strlit("aa");
    }
    assert(bound <= usize::MAX) by {
        assert(snapshot_fixed_size(*metadata) + spec_parts_size(parts_count(spec_backup_size(*metadata) as nat, split_bytes(*args)), sample_path_len("aa"@)) <= usize::MAX);
    }
    let mut total_size: usize = 25;
    match &metadata.key {
        Some(key) => {
            total_size = total_size + byte_len(key);
        },
        None => {},
    }
    total_size = total_size + estimate_backup_stats_size(&metadata.stats);
    let ghost base = total_size as int;
    let mut i: usize = 0;
    while i < metadata.tree.len()
        invariant
            i <= metadata.tree@.len(),
            base + tree_size(metadata.tree@) + lookup_size(metadata.reverse_lookup@) == bound,
            bound <= usize::MAX,
            total_size == base + tree_size(metadata.tree@.take(i as int)),
        decreases metadata.tree@.len() - i,
    {
        proof {
            assert(metadata.tree@.take(i + 1).drop_last() =~= metadata.tree@.take(i as int));
            lemma_tree_size_prefix(metadata.tree@, i + 1);
        }
        let (name, folder) = (&metadata.tree[i].0, &metadata.tree[i].1);
        total_size = total_size + byte_len(name) + estimate_folder_backup_metadata_size(folder);
        i = i + 1;
    }
    assert(metadata.tree@.take(i as int) =~= metadata.tree@);
    let ghost base2 = total_size as int;
    let mut j: usize = 0;
    while j < metadata.reverse_lookup.len()
        invariant
            j <= metadata.reverse_lookup@.len(),
            base2 + lookup_size(metadata.reverse_lookup@) == bound,
            bound <= usize::MAX,
            total_size == base2 + lookup_size(metadata.reverse_lookup@.take(j as int)),
        decreases metadata.reverse_lookup@.len() - j,
    {
        proof {
            assert(metadata.reverse_lookup@.take(j + 1).drop_last() =~= metadata.reverse_lookup@.take(j as int));
            lemma_lookup_size_prefix(metadata.reverse_lookup@, j + 1);
        }
        total_size = total_size + byte_len(&metadata.reverse_lookup[j].0) + byte_len(&metadata.reverse_lookup[j].1);
        j = j + 1;
    }
    assert(metadata.reverse_lookup@.take(j as int) =~= metadata.reverse_lookup@);
    let parts = estimate_parts_size(args, metadata);
    total_size + parts
}

/// Law: the snapshot estimate describes as many parts as reading an archive of
/// the backup's size in parts of the split size produces.
pub proof fn law_estimate_counts_the_uploaded_parts(size: nat, split_size: nat)
    requires
        split_size > 0,
    ensures
        parts_count(size, split_size) == planned_reads(size, split_size, 0).len(),
{
    law_fragments_cover_file(size, split_size);
}

} // verus!
