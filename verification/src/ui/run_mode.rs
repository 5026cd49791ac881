//! The run mode of a configuration: which options the mode allows, and how
//! ticking one mode turns the other off.

use vstd::prelude::*;

use crate::config::ScanConfig;

verus! {

/// Whether carved file bodies are written: neither a dry run nor metadata only.
pub open spec fn writes_carved(c: ScanConfig) -> bool {
    !c.dry_run && !c.metadata_only
}

/// Whether the run writes carved file bodies.
pub fn writes_carved_files(config: &ScanConfig) -> (r: bool)
    ensures
        r == writes_carved(*config),
{
    !config.dry_run && !config.metadata_only
}

/// Ticking or clearing "Dry run"; ticking it turns metadata-only mode off.
#[verifier::spinoff_prover]
#[verifier::rlimit(60)]
pub fn set_dry_run(config: &mut ScanConfig, on: bool)
    ensures
        *final(config) == (ScanConfig {
            dry_run: on,
            metadata_only: old(config).metadata_only && !on,
            ..*old(config)
        }),
{
    let metadata_only = config.metadata_only && !on;
    config.dry_run = on;
    config.metadata_only = metadata_only;
}

/// Ticking or clearing "Metadata only"; ticking it turns dry-run mode,
/// validation and invalid-file removal off.
#[verifier::spinoff_prover]
#[verifier::rlimit(60)]
pub fn set_metadata_only(config: &mut ScanConfig, on: bool)
    ensures
        *final(config) == (ScanConfig {
            metadata_only: on,
            dry_run: old(config).dry_run && !on,
            validate_carved: old(config).validate_carved && !on,
            remove_invalid: old(config).remove_invalid && !on,
            ..*old(config)
        }),
{
    let dry_run = config.dry_run && !on;
    let validate = config.validate_carved && !on;
    let remove = config.remove_invalid && !on;
    config.metadata_only = on;
    config.dry_run = dry_run;
    config.validate_carved = validate;
    config.remove_invalid = remove;
}

/// The configuration with the options that depend on others cleared:
/// validation needs written bodies, removal needs validation, and skipping
/// duplicate bodies needs written bodies and deduplication.
pub open spec fn with_run_mode_rules(c: ScanConfig) -> ScanConfig {
    let validate = c.validate_carved && writes_carved(c);
    ScanConfig {
        validate_carved: validate,
        remove_invalid: c.remove_invalid && validate,
        skip_duplicates: c.skip_duplicates && writes_carved(c) && c.dedupe,
        ..c
    }
}

/// Clears the options whose prerequisites are off. Afterwards neither
/// `--remove-invalid` without validation nor `--skip-duplicates` without
/// deduplication can be requested, and applying the rules again changes
/// nothing.
#[verifier::spinoff_prover]
#[verifier::rlimit(60)]
pub fn apply_run_mode_rules(config: &mut ScanConfig)
    ensures
        *final(config) == with_run_mode_rules(*old(config)),
        !(final(config).remove_invalid && !final(config).validate_carved),
        !(final(config).skip_duplicates && !final(config).dedupe),
        with_run_mode_rules(*final(config)) == *final(config),
{
    let writes = writes_carved_files(config);
    let validate = config.validate_carved && writes;
    let remove = config.remove_invalid && validate;
    let skip = config.skip_duplicates && writes && config.dedupe;
    config.validate_carved = validate;
    config.remove_invalid = remove;
    config.skip_duplicates = skip;
}

/// The note shown under the run-mode boxes.
pub open spec fn run_mode_note_text(c: ScanConfig) -> Seq<char> {
    if c.dry_run {
        "Dry run scans and counts only; SwiftBeaver output files are not written, so file validation and duplicate-body skipping are not used."@
    } else if c.metadata_only {
        "Metadata-only mode writes metadata records but does not write carved file bodies; validation/removal and duplicate-body skipping are disabled."@
    } else {
        "Normal mode writes carved files and metadata records to the run output directory."@
    }
}

/// The note that explains the current run mode.
pub fn run_mode_note(config: &ScanConfig) -> (r: &'static str)
    ensures
        r@ == run_mode_note_text(*config),
{
    if config.dry_run {
        "Dry run scans and counts only; SwiftBeaver output files are not written, so file validation and duplicate-body skipping are not used."
    } else if config.metadata_only {
        "Metadata-only mode writes metadata records but does not write carved file bodies; validation/removal and duplicate-body skipping are disabled."
    } else {
        "Normal mode writes carved files and metadata records to the run output directory."
    }
}

} // verus!
