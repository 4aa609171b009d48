//! Backup pipeline: planning, deduplication, grouping and bookkeeping.

pub mod errors;
pub mod structures;
pub mod dedupe;
pub mod grouping;
pub mod encrypt;
pub mod utility;
pub mod archive;
pub mod upload;
pub mod upload_checks;
pub mod file;
pub mod compression;
pub mod estimate;
pub mod snapshot;
pub mod plan;
