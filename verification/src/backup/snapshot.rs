//! The snapshot of a backup: how its metadata is compacted before it is
//! stored, its file name, and what is shown when it is queried.

use vstd::prelude::*;
use crate::text::pair_views;
use vstd::string::*;
use crate::backup::structures::{BackupMetadata, BackupStats};
use crate::byte_size::{format_bytesize, spec_format_bytesize};
use crate::configuration::{OperationalMode, SNAPSHOT_FILE};
use crate::text::{decimal, u64_to_decimal};

verus! {

/// Every file of the reverse lookup points to the same folder as the first.
pub open spec fn all_same_folder(lookup: Seq<(String, String)>) -> bool {
    forall|i: int| 0 <= i < lookup.len() ==> (#[trigger] lookup[i]).1@ == lookup[0].1@
}

/// Optimizes the metadata of the backup: when every file points to the same
/// folder, the reverse lookup becomes the single entry `"*"` naming it.
pub fn optimize_metadata(metadata: &mut BackupMetadata)
    requires
        old(metadata).reverse_lookup@.len() > 0,
    ensures
        all_same_folder(old(metadata).reverse_lookup@) ==> final(metadata).reverse_lookup@.len() == 1
            && final(metadata).reverse_lookup@[0].0@ == "*"@ && final(metadata).reverse_lookup@[0].1
            == old(metadata).reverse_lookup@[0].1,
        !all_same_folder(old(metadata).reverse_lookup@) ==> final(metadata).reverse_lookup == old(
            metadata,
        ).reverse_lookup,
        final(metadata).tree == old(metadata).tree,
        final(metadata).snapped_at == old(metadata).snapped_at,
        final(metadata).encrypted == old(metadata).encrypted,
        final(metadata).key == old(metadata).key,
        final(metadata).stats == old(metadata).stats,
        final(metadata).parts == old(metadata).parts,
        final(metadata).mode == old(metadata).mode,
        final(metadata).previous_backup == old(metadata).previous_backup,
{
    let folder = metadata.reverse_lookup[0].1.clone();
    let mut all_same = true;
    let mut i: usize = 1;
    while all_same && i < metadata.reverse_lookup.len()
        invariant
            1 <= i <= metadata.reverse_lookup@.len(),
            folder == metadata.reverse_lookup@[0].1,
            all_same ==> forall|j: int| 0 <= j < i ==> (#[trigger] metadata.reverse_lookup@[j]).1@ == folder@,
            !all_same ==> !all_same_folder(metadata.reverse_lookup@),
        decreases metadata.reverse_lookup@.len() - i + (if all_same { 1int } else { 0int }),
    {
        if !(metadata.reverse_lookup[i].1 == folder) {
            all_same = false;
        } else {
            i = i + 1;
        }
    }
    if all_same {
        let mut lookup: Vec<(String, String)> = Vec::new();
        lookup.push((String::from_str("*"), folder));
        metadata.reverse_lookup = lookup;
    }
}

/// The file a snapshot taken at `snapped_at` is stored in:
/// `<snapped_at>-gitup.snap`.
pub fn snapshot_file_name(snapped_at: u64) -> (res: String)
    ensures
        res@ == decimal(snapped_at as nat) + "-"@ + SNAPSHOT_FILE@,
{
    let mut name = u64_to_decimal(snapped_at);
    name.append("-");
    name.append(SNAPSHOT_FILE);
    name
}

/// `"<n> <unit> "` when `n` is positive, nothing otherwise.
pub open spec fn elapsed_part(n: i64, unit: Seq<char>) -> Seq<char> {
    if n > 0 {
        decimal(n as nat) + " "@ + unit + " "@
    } else {
        Seq::empty()
    }
}

/// The time since a snapshot, in whole days, whole hours and whole minutes,
/// each counted over the whole time and shown when positive.
pub open spec fn spec_elapsed_description(days: i64, hours: i64, minutes: i64) -> Seq<char> {
    elapsed_part(days, "days"@) + elapsed_part(hours, "hours"@) + elapsed_part(minutes, "minutes"@)
}

/// Appends `"<n> <unit> "` when `n` is positive.
fn push_elapsed(out: &mut String, n: i64, unit: &str)
    ensures
        final(out)@ == old(out)@ + elapsed_part(n, unit@),
{
    if n > 0 {
        out.append(u64_to_decimal(n as u64).as_str());
        out.append(" ");
        out.append(unit);
        out.append(" ");
    }
}

/// Describes the time since a snapshot, as in `2 days 50 hours 3000 minutes `.
pub fn elapsed_description(days: i64, hours: i64, minutes: i64) -> (res: String)
    ensures
        res@ == spec_elapsed_description(days, hours, minutes),
{
    let mut out = String::new();
    push_elapsed(&mut out, days, "days");
    push_elapsed(&mut out, hours, "hours");
    push_elapsed(&mut out, minutes, "minutes");
    out
}

/// The name of an operational mode, as it is given on the command line.
pub open spec fn spec_mode_name(mode: OperationalMode) -> Seq<char> {
    match mode {
        OperationalMode::Full => "full"@,
        OperationalMode::Incremental => "incremental"@,
        OperationalMode::Restore => "restore"@,
    }
}

/// The name of an operational mode.
pub fn mode_name(mode: OperationalMode) -> (res: &'static str)
    ensures
        res@ == spec_mode_name(mode),
{
    match mode {
        OperationalMode::Full => "full",
        OperationalMode::Incremental => "incremental",
        OperationalMode::Restore => "restore",
    }
}

/// The numbers a snapshot's report shows.
#[derive(Debug, Clone, Copy, PartialEq, Eq, Structural)]
pub struct SnapshotFacts {
    /// Every file found, duplicates included
    pub files: u64,
    /// The duplicated files
    pub duplicates: u64,
    /// The size of the files before the backup
    pub original_size: u64,
    /// The size of the backup
    pub backup_size: u64,
    /// How much the backup saved
    pub size_reduction: u64,
    /// The number of parts, none for a backup that was not split
    pub parts: usize,
}

/// The numbers a snapshot's report shows, from its metadata.
pub fn snapshot_facts(metadata: &BackupMetadata) -> (res: SnapshotFacts)
    requires
        metadata.stats.files + metadata.stats.duplicates <= u64::MAX,
        metadata.stats.spec_final_size() <= metadata.stats.original_size,
    ensures
        res.files == metadata.stats.files + metadata.stats.duplicates,
        res.duplicates == metadata.stats.duplicates,
        res.original_size == metadata.stats.original_size,
        res.backup_size == metadata.stats.spec_final_size(),
        res.size_reduction == metadata.stats.original_size - metadata.stats.spec_final_size(),
        res.parts == metadata.parts@.len(),
{
    let final_size = metadata.stats.final_size();
    SnapshotFacts {
        files: metadata.stats.files + metadata.stats.duplicates,
        duplicates: metadata.stats.duplicates,
        original_size: metadata.stats.original_size,
        backup_size: final_size,
        size_reduction: metadata.stats.original_size - final_size,
        parts: metadata.parts.len(),
    }
}

/// The rows of a snapshot's plain report, each a label and a value. The
/// creation date, the time since the snapshot and the size variation are
/// given already rendered.
pub open spec fn spec_report_rows(
    metadata: BackupMetadata,
    snapshot_size: u64,
    uncompressed_size: u64,
    created_on: Seq<char>,
    time_since: Seq<char>,
    size_variation: Seq<char>,
) -> Seq<(Seq<char>, Seq<char>)> {
    let s = metadata.stats;
    let final_size = s.spec_final_size();
    seq![
        ("Snapshot size"@, spec_format_bytesize(snapshot_size)),
        ("Uncompressed size"@, spec_format_bytesize(uncompressed_size)),
        ("Mode"@, spec_mode_name(metadata.mode) + " backup"@),
        ("Previous backup"@, match metadata.previous_backup {
            Some(p) => p@,
            None => "None"@,
        }),
        ("Created on"@, created_on),
        ("Time since snap"@, time_since),
        ("Encrypted"@, if metadata.encrypted { "true"@ } else { "false"@ }),
        ("Files"@, decimal((s.files + s.duplicates) as nat)),
        ("Duplicated files"@, decimal(s.duplicates as nat)),
        ("Original size"@, spec_format_bytesize(s.original_size)),
        ("Backup size"@, spec_format_bytesize(final_size)),
        ("Size reduction"@, spec_format_bytesize((s.original_size - final_size) as u64)),
        ("Size variation"@, size_variation),
        ("Parts"@, decimal(if metadata.parts.len() == 0 { 1nat } else { metadata.parts.len() as nat })),
    ]
}

/// A row of the report.
fn row(label: &str, value: String) -> (res: (String, String))
    ensures
        res.0@ == label@,
        res.1 == value,
{
    (String::from_str(label), value)
}

/// The rows of a snapshot's plain report.
pub fn snapshot_report_rows(
    metadata: &BackupMetadata,
    snapshot_size: u64,
    uncompressed_size: u64,
    created_on: &str,
    time_since: &str,
    size_variation: &str,
) -> (res: Vec<(String, String)>)
    requires
        metadata.stats.files + metadata.stats.duplicates <= u64::MAX,
        metadata.stats.spec_final_size() <= metadata.stats.original_size,
    ensures
        pair_views(res@) == spec_report_rows(*metadata, snapshot_size, uncompressed_size, created_on@, time_since@, size_variation@),
{
    let facts = snapshot_facts(metadata);
    let mut rows: Vec<(String, String)> = Vec::new();
    rows.push(row("Snapshot size", format_bytesize(snapshot_size)));
    rows.push(row("Uncompressed size", format_bytesize(uncompressed_size)));
    let mut mode = String::from_str(mode_name(metadata.mode));
    mode.append(" backup");
    rows.push(row("Mode", mode));
    let previous = match &metadata.previous_backup {
        Some(p) => p.clone(),
        None => String::from_str("None"),
    };
    rows.push(row("Previous backup", previous));
    rows.push(row("Created on", String::from_str(created_on)));
    rows.push(row("Time since snap", String::from_str(time_since)));
    let encrypted = if metadata.encrypted {
        String::from_str("true")
    } else {
        String::from_str("false")
    };
    rows.push(row("Encrypted", encrypted));
    rows.push(row("Files", u64_to_decimal(facts.files)));
    rows.push(row("Duplicated files", u64_to_decimal(facts.duplicates)));
    rows.push(row("Original size", format_bytesize(facts.original_size)));
    rows.push(row("Backup size", format_bytesize(facts.backup_size)));
    rows.push(row("Size reduction", format_bytesize(facts.size_reduction)));
    rows.push(row("Size variation", String::from_str(size_variation)));
    let parts: u64 = if facts.parts == 0 {
        1
    } else {
        facts.parts as u64
    };
    rows.push(row("Parts", u64_to_decimal(parts)));
    assert(pair_views(rows@) =~= spec_report_rows(*metadata, snapshot_size, uncompressed_size, created_on@, time_since@, size_variation@));
    rows
}

} // verus!
