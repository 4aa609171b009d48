use gitup::configuration::{merge_configuration, Args, OperationalMode, OptionalArgs, SizeUnit, DECRYPTION_BUFFER_SIZE, DEFAULT_BUFFER_SIZE, SNAPSHOT_FILE};

fn base() -> Args {
    Args {
        config: Some("gitup.json".to_string()),
        operational_mode: Some(OperationalMode::Full),
        folder_branching: false,
        split_size: 25,
        split_unit: SizeUnit::Megabytes,
        paths: vec!["/a".to_string()],
        debug: false,
        compress: false,
        encrypt: false,
        key: None,
        providers: vec!["gitup://t:github/o/r".to_string()],
        provider_list: false,
        dry_run: false,
        incremental_on: None,
        restore_from: None,
    }
}

fn empty() -> OptionalArgs {
    OptionalArgs {
        config: None,
        operational_mode: None,
        folder_branching: None,
        split_size: None,
        split_unit: None,
        paths: None,
        debug: None,
        compress: None,
        encrypt: None,
        key: None,
        providers: None,
        provider_list: None,
        dry_run: None,
        incremental_on: None,
        restore_from: None,
    }
}

#[test]
fn file_settings_fill_what_the_command_line_leaves_unset() {
    let mut file = empty();
    file.split_size = Some(5);
    file.split_unit = Some(SizeUnit::Gigabytes);
    file.key = Some("k".to_string());
    file.compress = Some(true);
    file.paths = Some(vec!["/b".to_string(), "/c".to_string()]);
    let merged = merge_configuration(base(), Some(file));
    assert_eq!(merged.split_size, 5);
    assert_eq!(merged.split_unit, SizeUnit::Gigabytes);
    assert_eq!(merged.key, Some("k".to_string()));
    assert!(merged.compress);
    assert_eq!(merged.paths, vec!["/a".to_string()]);
    assert_eq!(merged.operational_mode, Some(OperationalMode::Full));
    assert_eq!(merged.providers, base().providers);
}

#[test]
fn command_line_values_win_over_the_file() {
    let mut args = base();
    args.key = Some("from the command line".to_string());
    args.split_size = 10;
    args.split_unit = SizeUnit::Kilobytes;
    args.paths = Vec::new();
    let mut file = empty();
    file.key = Some("from the file".to_string());
    file.split_size = Some(5);
    file.split_unit = Some(SizeUnit::Gigabytes);
    file.operational_mode = Some(OperationalMode::Restore);
    file.paths = Some(vec!["/b".to_string()]);
    let merged = merge_configuration(args, Some(file));
    assert_eq!(merged.key, Some("from the command line".to_string()));
    assert_eq!(merged.split_size, 10);
    assert_eq!(merged.split_unit, SizeUnit::Kilobytes);
    assert_eq!(merged.operational_mode, Some(OperationalMode::Full));
    assert_eq!(merged.paths, vec!["/b".to_string()]);
}

#[test]
fn an_empty_configuration_keeps_the_arguments() {
    let merged = merge_configuration(base(), Some(empty()));
    assert_eq!(merged.config, base().config);
    assert_eq!(merged.split_size, 25);
    assert_eq!(merged.paths, base().paths);
    let unchanged = merge_configuration(base(), None);
    assert_eq!(unchanged.split_unit, SizeUnit::Megabytes);
}

#[test]
fn applying_a_configuration_twice_is_applying_it_once() {
    let mut file = empty();
    file.debug = Some(true);
    file.restore_from = Some("s".to_string());
    let once = file.clone().build(base());
    let twice = file.clone().build(file.build(base()));
    assert_eq!(once.debug, twice.debug);
    assert_eq!(once.restore_from, twice.restore_from);
    assert_eq!(once.split_size, twice.split_size);
}

#[test]
fn buffer_constants() {
    assert_eq!(DEFAULT_BUFFER_SIZE, 1024 * 1024);
    assert_eq!(DECRYPTION_BUFFER_SIZE, DEFAULT_BUFFER_SIZE + 24);
    assert_eq!(SNAPSHOT_FILE, "gitup.snap");
}
