//! Verified core of the Gitup backup daemon: encodings, size formatting,
//! backup planning and bookkeeping, key handling and storage provider rules.

pub mod text;
pub mod base64;
pub mod byte_size;
pub mod padding;
pub mod hash;
pub mod configuration;
pub mod entries;
pub mod backup;
pub mod ids;
pub mod addresses;
pub mod storage_providers;
pub mod restore;
pub mod web_client;
