use gitup::backup::compression::{compress, ensure_no_errors_counting_size, uncompress};
use gitup::backup::dedupe::Deduplication;
use gitup::backup::encrypt::{decrypt, derive_key, encrypt_chunk, get_key_if_any, key_parts_from_string, key_record, prepare_encryption_key};
use gitup::configuration::DEFAULT_BUFFER_SIZE;
use gitup::backup::errors::BackupError;
use gitup::backup::estimate::{estimate_parts_size_with, estimate_snapshot_size, get_backup_size, PROVIDER_URL_TEMPLATE};
use gitup::backup::file::{finish_read, plan_read, FileError};
use gitup::backup::grouping::group_files_by_folder;
use gitup::backup::plan::{group_backup_files, local_archive_path, plan_backup, start_metadata, CompressionLevel};
use gitup::backup::snapshot::{elapsed_description, optimize_metadata, snapshot_facts, snapshot_file_name, snapshot_report_rows};
use gitup::backup::structures::{BackupFile, BackupMetadata, BackupPart, BackupStats, FileBackupMetadata, FolderBackupMetadata};
use gitup::backup::upload::{compute_maximum_parts_number, compute_split_size, new_part, next_valid_provider, part_padding_length, part_path};
use gitup::backup::upload_checks::check_available_size;
use gitup::configuration::{Args, OperationalMode, SizeUnit};
use gitup::hash::sha3;
use gitup::restore::recover_and_verify::{has_decryptable_layout, verify_part};
use gitup::restore::utility::check_signature;
use gitup::restore::{duplicate_copies, restore_entry_path, restore_source};
use gitup::storage_providers::github::{Provider, UsefulMetadata};
use gitup::storage_providers::provider::CreatableStorageProvider;

fn args() -> Args {
    Args {
        config: None,
        operational_mode: Some(OperationalMode::Full),
        folder_branching: false,
        split_size: 25,
        split_unit: SizeUnit::Megabytes,
        paths: vec!["/data/*".to_string()],
        debug: false,
        compress: false,
        encrypt: false,
        key: None,
        providers: vec!["gitup://t:github/o/r".to_string()],
        provider_list: false,
        dry_run: false,
        incremental_on: None,
        restore_from: None,
    }
}

fn file(folder: &str, path: &str, size: u64, hash: &str) -> BackupFile {
    BackupFile {
        folder: folder.to_string(),
        path: path.to_string(),
        size,
        last_updated: 1,
        hash: hash.to_string(),
        duplicates: Vec::new(),
    }
}

fn provider_with_space(used_kb: u64) -> Provider {
    let mut p = Provider::new("gitup://t:github/o/r").unwrap();
    let meta = UsefulMetadata { archived: false, disabled: false, visibility: "private".to_string(), size: used_kb };
    let (_, r) = p.apply_repository_metadata(&meta);
    r.unwrap();
    p
}

#[test]
fn dedupe_keeps_the_first_file_of_each_hash() {
    let mut d = Deduplication::new();
    d.record("/a/x".to_string(), "/a".to_string(), "h1".to_string(), 10, 5);
    d.record("/b/y".to_string(), "/b".to_string(), "h2".to_string(), 20, 6);
    d.record("/c/x".to_string(), "/c".to_string(), "h1".to_string(), 10, 7);
    assert_eq!(d.duplicates, 1);
    assert_eq!(d.duplicate_size, 10);
    assert_eq!(d.backup_size, 30);
    let mut stats = BackupStats::default();
    let ((backup, dup), files) = d.finish(3, &mut stats);
    assert_eq!((backup, dup), (30, 10));
    assert_eq!(stats.files, 2);
    assert_eq!(stats.duplicates, 1);
    assert_eq!(stats.original_size, 40);
    assert_eq!(stats.duplicates_size, 10);
    assert_eq!(files.len(), 2);
    assert_eq!(files[0].path, "/a/x");
    assert_eq!(files[0].duplicates, vec!["/c/x".to_string()]);
    assert!(files[1].duplicates.is_empty());
}

#[test]
fn files_are_grouped_by_folder() {
    let files = vec![file("/a", "/a/1", 1, "1"), file("/b", "/b/2", 2, "2"), file("/a", "/a/3", 3, "3")];
    let groups = group_files_by_folder(files.clone());
    assert_eq!(groups.len(), 2);
    let a = groups.iter().find(|(k, _)| k == "/a").unwrap();
    assert_eq!(a.1.iter().map(|f| f.path.clone()).collect::<Vec<_>>(), vec!["/a/1", "/a/3"]);
    let single = group_backup_files(files, false);
    assert_eq!(single.len(), 1);
    assert_eq!(single[0].0, "");
    assert_eq!(single[0].1.len(), 3);
}

#[test]
fn backup_plan_follows_the_arguments() {
    let mut a = args();
    let plan = plan_backup(&a);
    assert_eq!(plan.compression, None);
    assert!(!plan.encrypt);
    assert!(plan.upload);
    a.compress = true;
    a.encrypt = true;
    assert!(!plan_backup(&a).encrypt);
    a.key = Some("secret".to_string());
    a.dry_run = true;
    let plan = plan_backup(&a);
    assert_eq!(plan.compression, Some(CompressionLevel::Best));
    assert!(plan.encrypt);
    assert!(!plan.upload);
    a.incremental_on = Some("prev.snap".to_string());
    a.operational_mode = Some(OperationalMode::Incremental);
    let m = start_metadata(&a);
    assert_eq!(m.mode, OperationalMode::Incremental);
    assert_eq!(m.previous_backup, Some("prev.snap".to_string()));
    assert_eq!(local_archive_path("x.gitupz"), "./x.gitupz");
}

#[test]
fn parts_and_splitting() {
    let mut a = args();
    assert_eq!(compute_split_size(&a), 25 * 1024 * 1024);
    a.split_unit = SizeUnit::Kilobytes;
    a.split_size = 3;
    assert_eq!(compute_split_size(&a), 3072);
    a.split_unit = SizeUnit::Gigabytes;
    assert_eq!(compute_split_size(&a), 3 * 1024 * 1024 * 1024);
    assert_eq!(compute_maximum_parts_number(0, 10), 0);
    assert_eq!(compute_maximum_parts_number(10, 10), 1);
    assert_eq!(compute_maximum_parts_number(11, 10), 2);
    assert_eq!(compute_maximum_parts_number(u64::MAX, 2), u64::MAX / 2 + 1);
    assert_eq!(part_padding_length(0), 1);
    assert_eq!(part_padding_length(9), 1);
    assert_eq!(part_padding_length(10), 2);
    assert_eq!(part_padding_length(12345), 5);
    let path = part_path(7, 3);
    assert!(path.ends_with(".gitup.part007"));
    let id = &path[..path.len() - ".gitup.part007".len()];
    assert!(id.len() >= 2 && id.len() <= 24);
    assert!(id.chars().all(|c| c.is_ascii_lowercase() || c.is_ascii_digit()));
}

#[test]
fn reads_cover_a_file_in_fragments() {
    assert_eq!(plan_read(10, 4, 0).unwrap(), 4);
    assert_eq!(plan_read(10, 4, 8).unwrap(), 2);
    assert!(matches!(plan_read(10, 4, 10), Err(FileError::EOF)));
    assert!(matches!(plan_read(0, 4, 0), Err(FileError::EOF)));
    let f = finish_read(vec![1, 2, 3], 5).unwrap();
    assert_eq!(f.total_bytes_read, 8);
    assert_eq!(f.data, vec![1, 2, 3]);
    assert!(matches!(finish_read(Vec::new(), 5), Err(FileError::EOF)));
    let mut total = 0u64;
    let mut count = 0u64;
    while let Ok(n) = plan_read(10, 3, total) {
        total = finish_read(vec![0; n], total).unwrap().total_bytes_read;
        count += 1;
    }
    assert_eq!(total, 10);
    assert_eq!(count, compute_maximum_parts_number(10, 3));
    assert_eq!(FileError::EOF.message(), "The file reached EOF");
    assert_eq!(FileError::CannotOpenFile("x".to_string()).message(), "The file could not be opened: x");
    assert_eq!(FileError::CannotReadFile("y".to_string()).message(), "The file could not be read: y");
}

#[test]
fn providers_are_tried_in_order_for_room() {
    let full = provider_with_space(1024 * 1024);
    let half = provider_with_space(512 * 1024);
    let empty = provider_with_space(0);
    let providers = vec![full.clone(), half.clone(), empty.clone()];
    assert_eq!(next_valid_provider(&providers, 0, 1).unwrap(), 1);
    assert_eq!(next_valid_provider(&providers, 0, 600 * 1024 * 1024).unwrap(), 2);
    assert_eq!(next_valid_provider(&providers, 2, 1).unwrap(), 2);
    assert!(matches!(next_valid_provider(&providers, 3, 1), Err(BackupError::NotEnoughSpace)));
    assert!(matches!(next_valid_provider(&providers, 0, 2 * 1024 * 1024 * 1024), Err(BackupError::NotEnoughSpace)));
    let total = 512 * 1024 * 1024 + 1024 * 1024 * 1024;
    assert!(check_available_size(&providers, total).is_ok());
    assert!(matches!(check_available_size(&providers, total + 1), Err(BackupError::NotEnoughSpace)));
    assert!(check_available_size(&Vec::new(), 0).is_ok());
}

#[test]
fn archive_outcomes_are_collected() {
    let ok = ensure_no_errors_counting_size(
        vec![Ok("a".to_string()), Ok("b".to_string())],
        vec![Ok(3), Ok(4)],
    )
    .unwrap();
    assert_eq!(ok, (7, vec!["a".to_string(), "b".to_string()]));
    match ensure_no_errors_counting_size(
        vec![Ok("a".to_string()), Err(BackupError::NotEnoughSpace), Ok("c".to_string())],
        vec![Ok(3), Ok(0), Err("gone".to_string())],
    ) {
        Err(BackupError::GeneralError(m)) => assert_eq!(
            m,
            "All providers failed or the storage providers do not have enough space to store the backup(s)"
        ),
        other => panic!("unexpected {:?}", other),
    }
    match ensure_no_errors_counting_size(vec![Ok("a".to_string())], vec![Err("gone".to_string())]) {
        Err(BackupError::CannotReadFile(m)) => assert_eq!(m, "gone"),
        other => panic!("unexpected {:?}", other),
    }
}

fn metadata_with_files() -> BackupMetadata {
    let mut m = BackupMetadata::new(OperationalMode::Full);
    let mut folder = FolderBackupMetadata::new("f1".to_string(), "/data".to_string());
    let mut f = file("/data", "/data/a.txt", 10, "h");
    f.duplicates = vec!["/data/b.txt".to_string(), "/data/a.txt".to_string()];
    let id = folder.add_file(f);
    assert_eq!(folder.files[0].0, id);
    m.register_folder(folder);
    assert_eq!(m.reverse_lookup[0].0, "h");
    m
}

#[test]
fn folders_are_registered_with_their_files() {
    let m = metadata_with_files();
    assert_eq!(m.tree.len(), 1);
    assert_eq!(m.tree[0].0, "f1");
    let folder = &m.tree[0].1;
    assert_eq!(folder.size, 10);
    assert_eq!(folder.files[0].1.original_path, "/data/a.txt");
    assert_eq!(m.reverse_lookup[0].1, "f1");
}

#[test]
fn duplicates_are_copied_on_restore() {
    let m = metadata_with_files();
    assert_eq!(
        duplicate_copies(&m),
        vec![("./restore//data/a.txt".to_string(), "./restore//data/b.txt".to_string())]
    );
    assert_eq!(restore_entry_path("C:\\x//y?.txt"), "restore/C/x/y.txt");
    assert_eq!(restore_entry_path("a///b"), "restore/a//b");
    let mut a = args();
    assert!(matches!(restore_source(&a), Err(BackupError::RestoreFromNotSet)));
    a.restore_from = Some("1-gitup.snapz".to_string());
    assert_eq!(restore_source(&a).unwrap(), "1-gitup.snapz");
}

#[test]
fn snapshot_metadata_is_compacted() {
    let mut m = metadata_with_files();
    m.reverse_lookup.push(("other".to_string(), "f1".to_string()));
    optimize_metadata(&mut m);
    assert_eq!(m.reverse_lookup, vec![("*".to_string(), "f1".to_string())]);
    let mut m = metadata_with_files();
    m.reverse_lookup.push(("other".to_string(), "f2".to_string()));
    let before = m.reverse_lookup.clone();
    optimize_metadata(&mut m);
    assert_eq!(m.reverse_lookup, before);
    assert_eq!(snapshot_file_name(1700000000), "1700000000-gitup.snap");
    assert_eq!(elapsed_description(2, 50, 3000), "2 days 50 hours 3000 minutes ");
    assert_eq!(elapsed_description(0, 0, 5), "5 minutes ");
    assert_eq!(elapsed_description(0, 0, 0), "");
}

#[test]
fn snapshot_report() {
    let mut m = metadata_with_files();
    m.stats.files = 3;
    m.stats.duplicates = 1;
    m.stats.original_size = 4096;
    m.stats.compressed_size = 1024;
    let facts = snapshot_facts(&m);
    assert_eq!(facts.files, 4);
    assert_eq!(facts.backup_size, 1024);
    assert_eq!(facts.size_reduction, 3072);
    assert_eq!(facts.parts, 0);
    let rows = snapshot_report_rows(&m, 2048, 100, "2024-01-01 00:00:00", "1 days", "-75.00%");
    let get = |l: &str| rows.iter().find(|(k, _)| k == l).unwrap().1.clone();
    assert_eq!(rows.len(), 14);
    assert_eq!(get("Snapshot size"), "2.00 KB");
    assert_eq!(get("Uncompressed size"), "100 B");
    assert_eq!(get("Mode"), "full backup");
    assert_eq!(get("Previous backup"), "None");
    assert_eq!(get("Encrypted"), "false");
    assert_eq!(get("Files"), "4");
    assert_eq!(get("Backup size"), "1.00 KB");
    assert_eq!(get("Size reduction"), "3.00 KB");
    assert_eq!(get("Size variation"), "-75.00%");
    assert_eq!(get("Parts"), "1");
}

#[test]
fn snapshot_size_estimate() {
    let mut m = metadata_with_files();
    m.key = Some("k".repeat(112));
    m.stats.archival_size = 30;
    assert_eq!(get_backup_size(&m), 30);
    m.stats.compressed_size = 20;
    assert_eq!(get_backup_size(&m), 20);
    m.encrypted = true;
    m.stats.encrypted_size = 0;
    assert_eq!(get_backup_size(&m), 0);
    m.stats.encrypted_size = 25;
    let mut a = args();
    a.split_size = 1;
    a.split_unit = SizeUnit::Kilobytes;
    assert_eq!(PROVIDER_URL_TEMPLATE.len(), 67);
    // one part: 8 + 35 + 1 + 64 + 3 * 67
    assert_eq!(estimate_parts_size_with(&a, &m, 35), 8 + 35 + 1 + 64 + 201);
    let folder = &m.tree[0].1;
    let file = &folder.files[0];
    let expected_fixed = 25
        + 112
        + 72
        + (2 + 8 + 2 + 5 + (file.0.len() + 16 + file.1.id.len() + 11 + 1))
        + (m.reverse_lookup[0].0.len() + 2);
    let total = estimate_snapshot_size(&a, &m);
    let parts_min = 8 + 13 + 1 + 64 + 201;
    let parts_max = 8 + 35 + 1 + 64 + 201;
    assert!(total >= expected_fixed + parts_min && total <= expected_fixed + parts_max, "{}", total);
}

#[test]
fn encryption_key_roundtrip() {
    let (key, record) = prepare_encryption_key("password").unwrap();
    assert_eq!(record.len(), 64 + 48);
    let (hash, salt) = key_parts_from_string(&record);
    assert_eq!(hash.len(), 64);
    assert_eq!(salt.len(), 24);
    assert_eq!(derive_key("password", Some(&salt)).unwrap(), key);
    let mut m = BackupMetadata::new(OperationalMode::Full);
    m.encrypted = true;
    m.key = Some(record);
    let mut a = args();
    assert!(matches!(get_key_if_any(&a, &m), Err(BackupError::NoKeyProvided)));
    a.key = Some("password".to_string());
    assert_eq!(get_key_if_any(&a, &m).unwrap(), Some(key));
    a.key = Some("wrong".to_string());
    assert!(matches!(get_key_if_any(&a, &m), Err(BackupError::InvalidKey)));
    m.encrypted = false;
    a.key = None;
    assert_eq!(get_key_if_any(&a, &m).unwrap(), None);
}

#[test]
fn key_derivation_is_hkdf_sha3_512() {
    let key = derive_key("password", Some(b"0123456789abcdef01234567")).unwrap();
    let hex: String = key.iter().map(|b| format!("{:02x}", b)).collect();
    assert_eq!(hex, "7c895b96d87ae86c08c8fc1f3b09076bdf65b8e2ea3963cbc38a9dc5e8d3b0fd");
}

#[test]
fn encrypted_chunks_decrypt_and_verify() {
    let key = derive_key("password", Some(b"0123456789abcdef01234567")).unwrap();
    let data = b"some archive bytes".to_vec();
    let chunk = encrypt_chunk(&key, &data).unwrap();
    assert_eq!(chunk.len(), 24 + data.len() + 16);
    assert!(has_decryptable_layout(&chunk));
    assert!(!has_decryptable_layout(&chunk[..10]));
    assert_eq!(decrypt(&chunk, key).unwrap(), data);
    let mut tampered = chunk.clone();
    tampered[30] ^= 1;
    assert!(matches!(decrypt(&tampered, key), Err(BackupError::CannotDecrypt(_))));

    let p = Provider::new("gitup://t:github/o/r").unwrap();
    let part = new_part(&chunk, "x.gitup.part1".to_string(), &p);
    assert_eq!(part.size, chunk.len() as u64);
    assert_eq!(part.signature, sha3(&chunk));
    assert_eq!(part.provider, "GitHub (gitup://****:github/o/r)");
    assert!(check_signature(&part.signature, &chunk));
    assert!(!check_signature(&part.signature, &tampered));
    assert_eq!(verify_part(&part, chunk.clone(), true, Some(key)).unwrap(), data);
    assert_eq!(verify_part(&part, chunk.clone(), false, None).unwrap(), chunk);
    assert!(matches!(verify_part(&part, tampered, true, Some(key)), Err(BackupError::InvalidSignature)));
}

#[test]
fn backup_error_messages() {
    assert_eq!(BackupError::NoKeyProvided.message(), "The backup is encrypted but no key was provided");
    assert_eq!(BackupError::MalformedPattern("[".to_string()).message(), "The provided glob pattern '[' is malformed");
    assert_eq!(BackupError::CannotReadFile("x".to_string()).message(), "The file could not be read: x");
    let part = BackupPart { size: 0, path: String::new(), signature: String::new(), provider: String::new() };
    assert_eq!(part.size, 0);
}

#[test]
fn compression_round_trip() {
    let data: Vec<u8> = (0..100_000u32).map(|i| (i % 251) as u8).collect();
    for level in [CompressionLevel::Fast, CompressionLevel::Best] {
        let stream = compress(&data, level);
        assert!(stream.len() < data.len());
        assert_eq!(uncompress(&stream).unwrap(), data);
    }
    assert_eq!(uncompress(&compress(b"", CompressionLevel::Best)).unwrap(), Vec::<u8>::new());
    assert!(matches!(uncompress(b"not zlib at all"), Err(BackupError::CannotReadFile(_))));
}

#[test]
fn archives_larger_than_a_buffer_decrypt_back() {
    let key = derive_key("password", Some(b"0123456789abcdef01234567")).unwrap();
    let buffer = DEFAULT_BUFFER_SIZE as usize;
    let data: Vec<u8> = (0..(2 * buffer + 1000)).map(|i| (i % 253) as u8).collect();
    let mut encrypted = Vec::new();
    for fragment in data.chunks(buffer) {
        encrypted.extend_from_slice(&encrypt_chunk(&key, fragment).unwrap());
    }
    assert_eq!(encrypted.len(), data.len() + 3 * 40);
    assert!(has_decryptable_layout(&encrypted));
    assert_eq!(decrypt(&encrypted, key).unwrap(), data);
}

#[test]
fn key_record_layout_reads_back() {
    let key = [7u8; 32];
    let salt: Vec<u8> = (0..24u8).collect();
    let record = key_record(&key, &salt);
    let (hash, parts_salt) = key_parts_from_string(&record);
    assert_eq!(hash, record[..64].to_string());
    assert_eq!(parts_salt, salt);
    let (h, s) = key_parts_from_string(&("a".repeat(64) + "00ff10"));
    assert_eq!(h, "a".repeat(64));
    assert_eq!(s, vec![0x00, 0xff, 0x10]);
}

#[test]
fn unencrypted_snapshot_without_key_record_needs_no_key() {
    let m = BackupMetadata::new(OperationalMode::Full);
    let mut a = args();
    assert_eq!(get_key_if_any(&a, &m).unwrap(), None);
    a.key = Some("password".to_string());
    assert_eq!(get_key_if_any(&a, &m).unwrap(), None);
}
