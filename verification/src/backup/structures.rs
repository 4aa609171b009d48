//! The records a backup keeps about itself.

use vstd::prelude::*;
use crate::configuration::OperationalMode;

verus! {

/// Represents the metadata of the backup
#[derive(Debug, Clone)]
pub struct BackupMetadata {
    /// The folders in the backup with their metadata, by folder identifier
    pub tree: Vec<(String, FolderBackupMetadata)>,
    /// The folder identifier of each file, by the file's content hash
    pub reverse_lookup: Vec<(String, String)>,
    /// The time the backup was snapped at in seconds since the Unix epoch
    pub snapped_at: u64,
    /// Whether the backup is encrypted
    pub encrypted: bool,
    /// The encryption key record if any
    pub key: Option<String>,
    /// The stats of the backup
    pub stats: BackupStats,
    /// The parts of the backup
    pub parts: Vec<BackupPart>,
    /// The operational mode of the backup
    pub mode: OperationalMode,
    /// The previous backup in case of an incremental backup
    pub previous_backup: Option<String>,
}

/// Represents a part of the backup, used when splitting the backup into multiple parts
#[derive(Debug, Clone)]
pub struct BackupPart {
    /// The size of the part in bytes
    pub size: u64,
    /// The path to the part
    pub path: String,
    /// The signature of the part
    pub signature: String,
    /// Provider where the part is stored
    pub provider: String,
}

/// Represent the stats of the backup
#[derive(Debug, Clone, Copy, PartialEq, Eq, Structural)]
pub struct BackupStats {
    /// The number of duplicates removed
    pub duplicates: u64,
    /// The size of the duplicates removed (in bytes)
    pub duplicates_size: u64,
    /// The number of files in the backup
    pub files: u64,
    /// The original size of the backup (in bytes)
    pub original_size: u64,
    /// The size of the backup (in bytes) after archiving
    pub archival_size: u64,
    /// The size of the backup (in bytes) after compression
    pub compressed_size: u64,
    /// The size of the backup (in bytes) after encryption
    pub encrypted_size: u64,
    /// The number of archives created (if splitting has been requested)
    pub archives: u64,
}

/// Represents the metadata of a folder in the backup
#[derive(Debug, Clone)]
pub struct FolderBackupMetadata {
    /// The folder identifier
    pub id: String,
    /// The original path of the folder
    pub original_path: String,
    /// The size of the folder in bytes
    pub size: u64,
    /// The files in the folder, by file identifier
    pub files: Vec<(String, FileBackupMetadata)>,
}

/// Represents the metadata of a file in the backup
#[derive(Debug, Clone)]
pub struct FileBackupMetadata {
    /// The file identifier
    pub id: String,
    /// The original path of the file
    pub original_path: String,
    /// The size of the file in bytes
    pub size: u64,
    /// The last time the file was updated in seconds since the Unix epoch
    pub last_updated: u64,
    /// The hash of the file
    pub hash: String,
    /// The list of paths where the file have been found duplicated
    pub duplicates: Vec<String>,
}

/// Represents a file to be backed up
#[derive(Debug, Clone)]
pub struct BackupFile {
    /// The path to the folder where the file is located
    pub folder: String,
    /// The path to the file
    pub path: String,
    /// The size of the file in bytes
    pub size: u64,
    /// The last time the file was updated in seconds since the Unix epoch
    pub last_updated: u64,
    /// The hash of the file
    pub hash: String,
    /// The list of paths where the file have been found duplicated
    pub duplicates: Vec<String>,
}

/// Stats with every count at zero.
pub open spec fn zero_stats() -> BackupStats {
    BackupStats {
        duplicates: 0,
        duplicates_size: 0,
        files: 0,
        original_size: 0,
        archival_size: 0,
        compressed_size: 0,
        encrypted_size: 0,
        archives: 0,
    }
}

impl Default for BackupStats {
    fn default() -> (res: Self)
        ensures
            res == zero_stats(),
    {
        BackupStats {
            duplicates: 0,
            duplicates_size: 0,
            files: 0,
            original_size: 0,
            archival_size: 0,
            compressed_size: 0,
            encrypted_size: 0,
            archives: 0,
        }
    }
}

impl BackupStats {
    /// The size the backup ends with: after encryption if it was encrypted,
    /// otherwise after compression if it was compressed, otherwise the archives' size.
    pub open spec fn spec_final_size(self) -> u64 {
        if self.encrypted_size != 0 {
            self.encrypted_size
        } else if self.compressed_size != 0 {
            self.compressed_size
        } else {
            self.archival_size
        }
    }

    /// The size the backup ends with.
    pub fn final_size(&self) -> (res: u64)
        ensures
            res == self.spec_final_size(),
    {
        if self.encrypted_size != 0 {
            self.encrypted_size
        } else if self.compressed_size != 0 {
            self.compressed_size
        } else {
            self.archival_size
        }
    }
}

impl BackupMetadata {
    /// Empty metadata for a backup run in the given mode.
    pub fn new(mode: OperationalMode) -> (res: Self)
        ensures
            res.tree@.len() == 0,
            res.reverse_lookup@.len() == 0,
            res.snapped_at == 0,
            !res.encrypted,
            res.key is None,
            res.stats == zero_stats(),
            res.parts@.len() == 0,
            res.mode == mode,
            res.previous_backup is None,
    {
        BackupMetadata {
            tree: Vec::new(),
            reverse_lookup: Vec::new(),
            snapped_at: 0,
            encrypted: false,
            key: None,
            stats: BackupStats::default(),
            parts: Vec::new(),
            mode,
            previous_backup: None,
        }
    }
}

/// Law: the size a backup ends with is the encrypted size whenever it is not
/// zero, otherwise the compressed size whenever that is not zero, whatever the
/// archival size; only when both are zero is it the archival size.
pub proof fn law_final_size_is_the_last_stage(stats: BackupStats)
    ensures
        stats.encrypted_size != 0 ==> stats.spec_final_size() == stats.encrypted_size,
        stats.encrypted_size == 0 && stats.compressed_size != 0 ==> stats.spec_final_size()
            == stats.compressed_size,
        stats.encrypted_size == 0 && stats.compressed_size == 0 ==> stats.spec_final_size()
            == stats.archival_size,
{
}

} // verus!
