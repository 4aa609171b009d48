//! Daemon configuration: command-line arguments, configuration-file overrides
//! and fixed sizes.

use vstd::prelude::*;
use crate::byte_size::MEGABYTE;

verus! {

/// The size of the encryption buffer
pub const DEFAULT_BUFFER_SIZE: u64 = 1 * MEGABYTE;

/// The size of the decryption buffer
pub const DECRYPTION_BUFFER_SIZE: u64 = DEFAULT_BUFFER_SIZE + 24;

/// The name of the metadata file
pub const SNAPSHOT_FILE: &'static str = "gitup.snap";

/// Defines how the backup should be executed
#[derive(Debug, Copy, Clone, PartialEq, Eq, PartialOrd, Ord, Structural)]
pub enum OperationalMode {
    /// Execute full backups
    Full,
    /// Execute incremental backups
    Incremental,
    /// Restore a backup
    Restore,
}

/// Data size unit
#[derive(Debug, Copy, Clone, PartialEq, Eq, PartialOrd, Ord, Structural)]
pub enum SizeUnit {
    /// Represent a chunk of 1024 bytes
    Kilobytes,
    /// Represent a chunk of 1024 kilobytes
    Megabytes,
    /// Represent a chunk of 1024 megabytes
    Gigabytes,
}

/// Gitup daemon process settings.
#[derive(Debug, Clone)]
pub struct Args {
    /// Load the configuration from a file.
    pub config: Option<String>,
    /// Defines how the backup should be executed
    pub operational_mode: Option<OperationalMode>,
    /// Whether to backup each folder separately.
    pub folder_branching: bool,
    /// The size at which files should be split.
    pub split_size: u16,
    /// The unit of the split size.
    pub split_unit: SizeUnit,
    /// The paths to backup.
    pub paths: Vec<String>,
    /// Whether to enable debug logging.
    pub debug: bool,
    /// Whether to compress the backup before uploading it.
    pub compress: bool,
    /// Whether to encrypt the backup before uploading it.
    pub encrypt: bool,
    /// The encryption key to use, if encryption is enabled.
    pub key: Option<String>,
    /// The storage providers to use for the backup.
    pub providers: Vec<String>,
    /// Executes Gitup in provider list mode.
    pub provider_list: bool,
    /// Prepares the backup without uploading it, keeping the archives locally.
    pub dry_run: bool,
    /// The snapshot an incremental backup builds on.
    pub incremental_on: Option<String>,
    /// The snapshot to restore from.
    pub restore_from: Option<String>,
}

/// Settings read from a configuration file: each one that is present overrides
/// the corresponding command-line argument.
#[derive(Debug, Clone)]
pub struct OptionalArgs {
    pub config: Option<String>,
    pub operational_mode: Option<OperationalMode>,
    pub folder_branching: Option<bool>,
    pub split_size: Option<u16>,
    pub split_unit: Option<SizeUnit>,
    pub paths: Option<Vec<String>>,
    pub debug: Option<bool>,
    pub compress: Option<bool>,
    pub encrypt: Option<bool>,
    pub key: Option<String>,
    pub providers: Option<Vec<String>>,
    pub provider_list: Option<bool>,
    pub dry_run: Option<bool>,
    pub incremental_on: Option<String>,
    pub restore_from: Option<String>,
}

/// The split size the command line gives when none is asked for.
pub const DEFAULT_SPLIT_SIZE: u16 = 25;

/// The value that replaces `base`, if any.
pub open spec fn overridden<T>(o: Option<T>, base: T) -> T {
    match o {
        Some(x) => x,
        None => base,
    }
}

/// An optional setting: the command line's value when it gives one, the
/// file's otherwise.
pub open spec fn given_first<T>(given: Option<T>, file: Option<T>) -> Option<T> {
    if given is Some {
        given
    } else {
        file
    }
}

/// A setting that always has a value: the command line's value unless it is
/// the default, which counts as not given; then the file's value, if it has
/// one.
pub open spec fn changed_first<T>(given: T, default: T, file: Option<T>) -> T {
    if given == default {
        overridden(file, given)
    } else {
        given
    }
}

/// A list setting: the command line's list unless it is empty, which counts
/// as not given; then the file's list, if it has one.
pub open spec fn list_first(given: Vec<String>, file: Option<Vec<String>>) -> Vec<String> {
    if given@.len() == 0 {
        overridden(file, given)
    } else {
        given
    }
}

/// The settings that result from reading the file `o` under the command line
/// `base`: what the command line gives wins, and the file fills in the rest.
/// A setting that cannot be left unset (a flag, the split size and unit, a
/// list) counts as given when it differs from its default (`false`, 25,
/// megabytes, empty).
pub open spec fn spec_build(o: OptionalArgs, base: Args) -> Args {
    Args {
        config: given_first(base.config, o.config),
        operational_mode: given_first(base.operational_mode, o.operational_mode),
        folder_branching: changed_first(base.folder_branching, false, o.folder_branching),
        split_size: changed_first(base.split_size, DEFAULT_SPLIT_SIZE, o.split_size),
        split_unit: changed_first(base.split_unit, SizeUnit::Megabytes, o.split_unit),
        paths: list_first(base.paths, o.paths),
        debug: changed_first(base.debug, false, o.debug),
        compress: changed_first(base.compress, false, o.compress),
        encrypt: changed_first(base.encrypt, false, o.encrypt),
        key: given_first(base.key, o.key),
        providers: list_first(base.providers, o.providers),
        provider_list: changed_first(base.provider_list, false, o.provider_list),
        dry_run: changed_first(base.dry_run, false, o.dry_run),
        incremental_on: given_first(base.incremental_on, o.incremental_on),
        restore_from: given_first(base.restore_from, o.restore_from),
    }
}

/// An optional setting: the command line's when given, the file's otherwise.
fn pick_option<T>(given: Option<T>, file: Option<T>) -> (res: Option<T>)
    ensures
        res == given_first(given, file),
{
    if given.is_some() {
        given
    } else {
        file
    }
}

/// A flag: set on the command line, or else as the file has it.
fn pick_flag(given: bool, file: Option<bool>) -> (res: bool)
    ensures
        res == changed_first(given, false, file),
{
    if given {
        true
    } else {
        match file {
            Some(f) => f,
            None => false,
        }
    }
}

/// The split size: the command line's unless it is the default.
fn pick_split_size(given: u16, file: Option<u16>) -> (res: u16)
    ensures
        res == changed_first(given, DEFAULT_SPLIT_SIZE, file),
{
    if given == DEFAULT_SPLIT_SIZE {
        match file {
            Some(f) => f,
            None => given,
        }
    } else {
        given
    }
}

/// The split unit: the command line's unless it is the default.
fn pick_split_unit(given: SizeUnit, file: Option<SizeUnit>) -> (res: SizeUnit)
    ensures
        res == changed_first(given, SizeUnit::Megabytes, file),
{
    if given == SizeUnit::Megabytes {
        match file {
            Some(f) => f,
            None => given,
        }
    } else {
        given
    }
}

/// A list: the command line's unless it is empty.
fn pick_list(given: Vec<String>, file: Option<Vec<String>>) -> (res: Vec<String>)
    ensures
        res == list_first(given, file),
{
    if given.len() == 0 {
        match file {
            Some(f) => f,
            None => given,
        }
    } else {
        given
    }
}

impl OptionalArgs {
    /// Fills in, from the settings present here, what `base` leaves unset.
    pub fn build(self, base: Args) -> (res: Args)
        ensures
            res == spec_build(self, base),
    {
        Args {
            config: pick_option(base.config, self.config),
            operational_mode: pick_option(base.operational_mode, self.operational_mode),
            folder_branching: pick_flag(base.folder_branching, self.folder_branching),
            split_size: pick_split_size(base.split_size, self.split_size),
            split_unit: pick_split_unit(base.split_unit, self.split_unit),
            paths: pick_list(base.paths, self.paths),
            debug: pick_flag(base.debug, self.debug),
            compress: pick_flag(base.compress, self.compress),
            encrypt: pick_flag(base.encrypt, self.encrypt),
            key: pick_option(base.key, self.key),
            providers: pick_list(base.providers, self.providers),
            provider_list: pick_flag(base.provider_list, self.provider_list),
            dry_run: pick_flag(base.dry_run, self.dry_run),
            incremental_on: pick_option(base.incremental_on, self.incremental_on),
            restore_from: pick_option(base.restore_from, self.restore_from),
        }
    }
}

/// Merges settings read from a configuration file (when one was read) with the
/// command-line arguments, which have the higher priority; without a file the
/// arguments stand as they are.
pub fn merge_configuration(args: Args, config: Option<OptionalArgs>) -> (res: Args)
    ensures
        config matches Some(o) ==> res == spec_build(o, args),
        config is None ==> res == args,
{
    match config {
        Some(o) => o.build(args),
        None => args,
    }
}

/// A configuration file that sets nothing.
pub open spec fn empty_configuration() -> OptionalArgs {
    OptionalArgs {
        config: None,
        operational_mode: None,
        folder_branching: None,
        split_size: None,
        split_unit: None,
        paths: None,
        debug: None,
        compress: None,
        encrypt: None,
        key: None,
        providers: None,
        provider_list: None,
        dry_run: None,
        incremental_on: None,
        restore_from: None,
    }
}

/// Law: a configuration file that sets nothing leaves the arguments as they are.
pub proof fn law_empty_configuration_keeps_arguments(args: Args)
    ensures
        spec_build(empty_configuration(), args) == args,
{
}

/// Law: what the command line gives wins over the file: every optional
/// setting given on the command line, and every other setting that differs
/// from its default.
pub proof fn law_command_line_wins(config: OptionalArgs, args: Args)
    ensures
        args.config is Some ==> spec_build(config, args).config == args.config,
        args.operational_mode is Some ==> spec_build(config, args).operational_mode == args.operational_mode,
        args.key is Some ==> spec_build(config, args).key == args.key,
        args.incremental_on is Some ==> spec_build(config, args).incremental_on == args.incremental_on,
        args.restore_from is Some ==> spec_build(config, args).restore_from == args.restore_from,
        args.folder_branching ==> spec_build(config, args).folder_branching,
        args.debug ==> spec_build(config, args).debug,
        args.compress ==> spec_build(config, args).compress,
        args.encrypt ==> spec_build(config, args).encrypt,
        args.provider_list ==> spec_build(config, args).provider_list,
        args.dry_run ==> spec_build(config, args).dry_run,
        args.split_size != DEFAULT_SPLIT_SIZE ==> spec_build(config, args).split_size == args.split_size,
        args.split_unit != SizeUnit::Megabytes ==> spec_build(config, args).split_unit == args.split_unit,
        args.paths@.len() > 0 ==> spec_build(config, args).paths == args.paths,
        args.providers@.len() > 0 ==> spec_build(config, args).providers == args.providers,
{
}

/// Law: applying a configuration file twice gives what applying it once gives.
pub proof fn law_configuration_applies_once(config: OptionalArgs, args: Args)
    ensures
        spec_build(config, spec_build(config, args)) == spec_build(config, args),
{
}

/// Law: the file fills in every setting the command line leaves unset: an
/// optional setting not given, a flag not set, the split size and unit at
/// their defaults, an empty list.
pub proof fn law_file_fills_unset_settings(config: OptionalArgs, args: Args)
    ensures
        args.config is None ==> spec_build(config, args).config == config.config,
        args.operational_mode is None ==> spec_build(config, args).operational_mode == config.operational_mode,
        args.key is None ==> spec_build(config, args).key == config.key,
        args.incremental_on is None ==> spec_build(config, args).incremental_on == config.incremental_on,
        args.restore_from is None ==> spec_build(config, args).restore_from == config.restore_from,
        !args.folder_branching && config.folder_branching is Some ==> spec_build(config, args).folder_branching == config.folder_branching.unwrap(),
        !args.debug && config.debug is Some ==> spec_build(config, args).debug == config.debug.unwrap(),
        !args.compress && config.compress is Some ==> spec_build(config, args).compress == config.compress.unwrap(),
        !args.encrypt && config.encrypt is Some ==> spec_build(config, args).encrypt == config.encrypt.unwrap(),
        !args.provider_list && config.provider_list is Some ==> spec_build(config, args).provider_list == config.provider_list.unwrap(),
        !args.dry_run && config.dry_run is Some ==> spec_build(config, args).dry_run == config.dry_run.unwrap(),
        args.split_size == DEFAULT_SPLIT_SIZE && config.split_size is Some ==> spec_build(config, args).split_size == config.split_size.unwrap(),
        args.split_unit == SizeUnit::Megabytes && config.split_unit is Some ==> spec_build(config, args).split_unit == config.split_unit.unwrap(),
        args.paths@.len() == 0 && config.paths is Some ==> spec_build(config, args).paths == config.paths.unwrap(),
        args.providers@.len() == 0 && config.providers is Some ==> spec_build(config, args).providers == config.providers.unwrap(),
{
}

} // verus!
