//! The decisions a backup run makes from its settings: how its metadata
//! starts, how files are grouped into archives, how archives are compressed,
//! whether they are encrypted and whether they are uploaded.

use vstd::prelude::*;
use vstd::string::*;
use crate::backup::grouping::{files_in_folder, group_files_by_folder};
use crate::backup::structures::{zero_stats, BackupFile, BackupMetadata};
use crate::configuration::Args;
use crate::entries::{has_key, keys_distinct};

verus! {

/// How hard zlib compresses.
#[derive(Debug, Clone, Copy, PartialEq, Eq, Structural)]
pub enum CompressionLevel {
    /// Fast compression
    Fast,
    /// Best compression
    Best,
}

/// What a backup run does with its archives.
#[derive(Debug, Clone, Copy, PartialEq, Eq, Structural)]
pub struct BackupPlan {
    /// Each folder goes to an archive of its own
    pub folder_branching: bool,
    /// How the archives are compressed, if they are
    pub compression: Option<CompressionLevel>,
    /// Whether the archives are encrypted
    pub encrypt: bool,
    /// Whether the backup is uploaded, rather than kept locally
    pub upload: bool,
}

/// The plan of a backup run: best compression when compression was asked for,
/// none otherwise; encryption when it was asked for and a key was given; an
/// upload unless it is a dry run.
pub fn plan_backup(args: &Args) -> (res: BackupPlan)
    ensures
        res.folder_branching == args.folder_branching,
        res.compression == (if args.compress { Some(CompressionLevel::Best) } else { None }),
        res.encrypt == (args.encrypt && args.key is Some),
        res.upload == !args.dry_run,
{
    BackupPlan {
        folder_branching: args.folder_branching,
        compression: if args.compress {
            Some(CompressionLevel::Best)
        } else {
            None
        },
        encrypt: args.encrypt && args.key.is_some(),
        upload: !args.dry_run,
    }
}

/// The metadata a backup run starts with: empty, in the run's mode, pointing
/// to the backup it builds on for an incremental run.
pub fn start_metadata(args: &Args) -> (res: BackupMetadata)
    requires
        args.operational_mode is Some,
    ensures
        res.mode == args.operational_mode.unwrap(),
        res.previous_backup == args.incremental_on,
        res.tree@.len() == 0,
        res.reverse_lookup@.len() == 0,
        res.snapped_at == 0,
        !res.encrypted,
        res.key is None,
        res.stats == zero_stats(),
        res.parts@.len() == 0,
{
    let mode = match args.operational_mode {
        Some(m) => m,
        None => {
            proof {
                assert(false);
            }
            crate::configuration::OperationalMode::Full
        },
    };
    let mut metadata = BackupMetadata::new(mode);
    match &args.incremental_on {
        Some(previous) => {
            metadata.previous_backup = Some(previous.clone());
        },
        None => {},
    }
    metadata
}

/// The groups of files archived together: one per folder with folder
/// branching, otherwise all of them under an empty folder name.
pub fn group_backup_files(files: Vec<BackupFile>, folder_branching: bool) -> (res: Vec<(String, Vec<BackupFile>)>)
    ensures
        folder_branching ==> keys_distinct(res@) && (forall|i: int|
            0 <= i < res@.len() ==> #[trigger] res@[i].1@ == files_in_folder(files@, res@[i].0@)
                && res@[i].1@.len() > 0) && (forall|j: int|
            0 <= j < files@.len() ==> has_key(res@, #[trigger] files@[j].folder@)),
        !folder_branching ==> res@.len() == 1 && res@[0].0@ == Seq::<char>::empty() && res@[0].1@ == files@,
{
    if folder_branching {
        group_files_by_folder(files)
    } else {
        let mut groups: Vec<(String, Vec<BackupFile>)> = Vec::new();
        groups.push((String::new(), files));
        groups
    }
}

/// Where a dry run keeps an archive: in the working folder, under its name.
pub fn local_archive_path(archive_name: &str) -> (res: String)
    ensures
        res@ == "./"@ + archive_name@,
{
    let mut path = String::from_str("./");
    path.append(archive_name);
    path
}

} // verus!
