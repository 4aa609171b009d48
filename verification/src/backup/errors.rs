//! The error type of backup and restore.

use vstd::prelude::*;
use vstd::string::*;

verus! {

/// The error type for the backup execution
#[derive(Debug)]
pub enum BackupError {
    /// The provided glob pattern is malformed
    MalformedPattern(String),
    /// The file could not be read
    CannotReadFile(String),
    /// The backup file could not be created
    CannotCreateBackupFile(String),
    /// The backup file could not be added to the zip archive
    CannotAddZipEntry(String),
    /// The backup file could not be written to the zip archive
    CannotWriteToZipArchive(String),
    /// The zip archive could not be finalized
    CannotFinalizeZipArchive(String),
    /// General error
    GeneralError(String),
    /// Cannot proceed with the encryption operations
    CannotEncrypt(String),
    /// The storage providers do not have enough space to store the backup(s)
    NotEnoughSpace,
    /// An error occurred while writing a file
    CannotWrite(String),
    /// Cannot restore from the snapshot file
    SnapshotFileError(String),
    /// The restore_from argument is not set
    RestoreFromNotSet,
    /// The part is invalid
    InvalidSnapshotFile,
    /// The provider is unknown
    NoMatchingProvider,
    /// The backup is encrypted and no key was given
    NoKeyProvided,
    /// The given key does not match the one the backup was encrypted with
    InvalidKey,
    /// A downloaded part does not match its signature
    InvalidSignature,
    /// Cannot proceed with the decryption operations
    CannotDecrypt(String),
}

/// The human-readable description of a backup error.
pub open spec fn backup_error_message(e: BackupError) -> Seq<char> {
    match e {
        BackupError::MalformedPattern(p) => "The provided glob pattern '"@ + p@ + "' is malformed"@,
        BackupError::CannotReadFile(e) => "The file could not be read: "@ + e@,
        BackupError::CannotCreateBackupFile(e) => "The backup file could not be created: "@ + e@,
        BackupError::CannotAddZipEntry(e) => "The backup file could not be added to the zip archive: "@
            + e@,
        BackupError::CannotWriteToZipArchive(e) =>
            "The backup file could not be written to the zip archive: "@ + e@,
        BackupError::CannotFinalizeZipArchive(e) => "The zip archive could not be finalized: "@ + e@,
        BackupError::GeneralError(e) => "General error: "@ + e@,
        BackupError::CannotEncrypt(e) => "Cannot proceed with the encryption operations: "@ + e@,
        BackupError::NotEnoughSpace =>
            "All providers failed or the storage providers do not have enough space to store the backup(s)"@,
        BackupError::CannotWrite(e) => "An error occurred while writing a file: "@ + e@,
        BackupError::SnapshotFileError(e) => "Cannot restore from the snapshot file: "@ + e@,
        BackupError::RestoreFromNotSet => "The restore_from argument is not set"@,
        BackupError::InvalidSnapshotFile => "One or more parts in the snapshot file are invalid"@,
        BackupError::NoMatchingProvider =>
            "Cannot proceed with the restore operation: no matching provider found in current configuration"@,
        BackupError::NoKeyProvided => "The backup is encrypted but no key was provided"@,
        BackupError::InvalidKey => "The provided key does not match the backup key"@,
        BackupError::InvalidSignature => "The signature of a downloaded part does not match"@,
        BackupError::CannotDecrypt(e) => "Cannot proceed with the decryption operations: "@ + e@,
    }
}

/// A literal followed by a detail.
fn with_detail(prefix: &str, detail: &String) -> (res: String)
    ensures
        res@ == prefix@ + detail@,
{
    let mut m = String::from_str(prefix);
    m.append(detail.as_str());
    m
}

impl BackupError {
    /// The human-readable description of the error.
    pub fn message(&self) -> (res: String)
        ensures
            res@ == backup_error_message(*self),
    {
        match self {
            BackupError::MalformedPattern(p) => {
                let mut m = with_detail("The provided glob pattern '", p);
                m.append("' is malformed");
                m
            },
            BackupError::CannotReadFile(e) => with_detail("The file could not be read: ", e),
            BackupError::CannotCreateBackupFile(e) => with_detail(
                "The backup file could not be created: ",
                e,
            ),
            BackupError::CannotAddZipEntry(e) => with_detail(
                "The backup file could not be added to the zip archive: ",
                e,
            ),
            BackupError::CannotWriteToZipArchive(e) => with_detail(
                "The backup file could not be written to the zip archive: ",
                e,
            ),
            BackupError::CannotFinalizeZipArchive(e) => with_detail(
                "The zip archive could not be finalized: ",
                e,
            ),
            BackupError::GeneralError(e) => with_detail("General error: ", e),
            BackupError::CannotEncrypt(e) => with_detail(
                "Cannot proceed with the encryption operations: ",
                e,
            ),
            BackupError::NotEnoughSpace => String::from_str(
                "All providers failed or the storage providers do not have enough space to store the backup(s)",
            ),
            BackupError::CannotWrite(e) => with_detail("An error occurred while writing a file: ", e),
            BackupError::SnapshotFileError(e) => with_detail(
                "Cannot restore from the snapshot file: ",
                e,
            ),
            BackupError::RestoreFromNotSet => String::from_str("The restore_from argument is not set"),
            BackupError::InvalidSnapshotFile => String::from_str(
                "One or more parts in the snapshot file are invalid",
            ),
            BackupError::NoMatchingProvider => String::from_str(
                "Cannot proceed with the restore operation: no matching provider found in current configuration",
            ),
            BackupError::NoKeyProvided => String::from_str(
                "The backup is encrypted but no key was provided",
            ),
            BackupError::InvalidKey => String::from_str("The provided key does not match the backup key"),
            BackupError::InvalidSignature => String::from_str(
                "The signature of a downloaded part does not match",
            ),
            BackupError::CannotDecrypt(e) => with_detail(
                "Cannot proceed with the decryption operations: ",
                e,
            ),
        }
    }
}

} // verus!
