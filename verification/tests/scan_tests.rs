use swiftbeaverlodge::backend::scan::generate_run_id;
use swiftbeaverlodge::config::{validate_flag_combinations, ScanConfig};
use swiftbeaverlodge::scan::manager::build_cli_args;
use swiftbeaverlodge::scan::progress::{
    format_bytes, format_duration, parse_eta, parse_json_log, parse_progress_message,
    parse_starting_message, LogPayload, ScanProgress, StartInfo,
};
use swiftbeaverlodge::scan::{
    binary_name_candidates, discover_swiftbeaver, find_in_dirs_for_platform, find_swiftbeaver_binary, get_swiftbeaver_version,
    meets_minimum_version, parse_swiftbeaver_version, CompatibilityIssue, DiscoveredBinary,
    ScanState, MIN_SWIFTBEAVER_VERSION,
};

#[test]
fn test_scan_state_equality() {
    assert_eq!(ScanState::Idle, ScanState::Idle);
    assert_ne!(ScanState::Idle, ScanState::Running);
}

#[test]
fn test_find_swiftbeaver_in_path() {
    let _ = find_swiftbeaver_binary(None, false);
}

#[test]
fn test_parse_swiftbeaver_version_with_prefix() {
    assert_eq!(parse_swiftbeaver_version("swiftbeaver 0.5.1"), Some((0, 5, 1)));
    assert_eq!(parse_swiftbeaver_version("swiftbeaver 1.2.3\n"), Some((1, 2, 3)));
}

#[test]
fn test_parse_swiftbeaver_version_v_prefix() {
    assert_eq!(parse_swiftbeaver_version("swiftbeaver v0.5.1"), Some((0, 5, 1)));
    assert_eq!(parse_swiftbeaver_version("swiftbeaver v0.4.0"), Some((0, 4, 0)));
    assert_eq!(parse_swiftbeaver_version("v1.2.3"), Some((1, 2, 3)));
}

#[test]
fn test_parse_swiftbeaver_version_bare() {
    assert_eq!(parse_swiftbeaver_version("0.5.1"), Some((0, 5, 1)));
    assert_eq!(parse_swiftbeaver_version("  10.20.30  "), Some((10, 20, 30)));
}

#[test]
fn test_parse_swiftbeaver_version_two_part() {
    assert_eq!(parse_swiftbeaver_version("swiftbeaver 0.5"), Some((0, 5, 0)));
}

#[test]
fn test_parse_swiftbeaver_version_with_suffix() {
    assert_eq!(parse_swiftbeaver_version("swiftbeaver 0.5.1-rc.1"), Some((0, 5, 1)));
    assert_eq!(parse_swiftbeaver_version("swiftbeaver 0.5.1+build.7"), Some((0, 5, 1)));
    assert_eq!(parse_swiftbeaver_version("swiftbeaver v0.5.1-rc.1"), Some((0, 5, 1)));
}

#[test]
fn test_parse_swiftbeaver_version_invalid() {
    assert_eq!(parse_swiftbeaver_version(""), None);
    assert_eq!(parse_swiftbeaver_version("swiftbeaver"), None);
    assert_eq!(parse_swiftbeaver_version("not a version"), None);
    assert_eq!(parse_swiftbeaver_version("swiftbeaver vX.Y.Z"), None);
}

#[test]
fn test_meets_minimum_version() {
    assert!(meets_minimum_version((0, 6, 7)));
    assert!(meets_minimum_version((0, 6, 8)));
    assert!(meets_minimum_version((1, 0, 0)));
    assert!(!meets_minimum_version((0, 6, 6)));
    assert!(!meets_minimum_version((0, 5, 99)));
}

#[test]
fn test_compatibility_old_version_blocks() {
    let b = DiscoveredBinary {
        path: "/tmp/swiftbeaver".to_string(),
        version: Some((0, 6, 6)),
        version_string: Some("swiftbeaver 0.6.6".to_string()),
    };
    assert!(b.check_compatibility().is_err());
    assert_eq!(
        b.check_compatibility(),
        Err(CompatibilityIssue::UnsupportedVersion { detected: (0, 6, 6), minimum: MIN_SWIFTBEAVER_VERSION })
    );
}

#[test]
fn test_compatibility_unparseable_version_blocks() {
    let b = DiscoveredBinary {
        path: "/tmp/swiftbeaver".to_string(),
        version: None,
        version_string: Some("garbage output".to_string()),
    };
    assert!(b.check_compatibility().is_err());
    assert!(matches!(b.check_compatibility(), Err(CompatibilityIssue::UnparseableVersion(_))));
}

#[test]
fn test_compatibility_minimum_version_passes() {
    let b = DiscoveredBinary {
        path: "/tmp/swiftbeaver".to_string(),
        version: Some(MIN_SWIFTBEAVER_VERSION),
        version_string: Some("swiftbeaver 0.6.7".to_string()),
    };
    assert!(b.check_compatibility().is_ok());
}

#[test]
fn test_binary_name_candidates_prefer_windows_exe() {
    assert_eq!(
        binary_name_candidates("swiftbeaver", true),
        vec!["swiftbeaver.exe".to_string(), "swiftbeaver".to_string()]
    );
    assert_eq!(binary_name_candidates("swiftbeaver.exe", true), vec!["swiftbeaver.exe".to_string()]);
    assert_eq!(binary_name_candidates("swiftbeaver", false), vec!["swiftbeaver".to_string()]);
}

#[test]
fn test_format_bytes() {
    assert_eq!(format_bytes(512), "512 B");
    assert_eq!(format_bytes(1024), "1.00 KB");
    assert_eq!(format_bytes(1536), "1.50 KB");
    assert_eq!(format_bytes(1048576), "1.00 MB");
    assert_eq!(format_bytes(1073741824), "1.00 GB");
    assert_eq!(format_bytes(1099511627776), "1.00 TB");
}

#[test]
fn test_format_duration() {
    assert_eq!(format_duration(30), "30s");
    assert_eq!(format_duration(90), "1m 30s");
    assert_eq!(format_duration(3661), "1h 1m");
}

#[test]
fn test_parse_eta_variants() {
    assert_eq!(parse_eta("N/A"), None);
    assert_eq!(parse_eta("n/a"), None);
    assert_eq!(parse_eta("None"), None);
    assert_eq!(parse_eta(""), None);
    assert_eq!(parse_eta("5s"), Some(5));
    assert_eq!(parse_eta("2m"), Some(120));
    assert_eq!(parse_eta("1h"), Some(3600));
    assert_eq!(parse_eta("1m30s"), Some(90));
    assert_eq!(parse_eta("1h2m3s"), Some(3723));
    assert_eq!(parse_eta("90"), Some(90));
    assert_eq!(parse_eta("garbage"), None);
}

#[test]
fn format_bytes_matches_float_formatting() {
    for b in [1u64, 1023, 1024, 1025, 1535, 1536, 10_000, 999_999, 1_048_575, 5_000_000_000, 123_456_789_012_345, u64::MAX] {
        let f = b as f64;
        let expected = if b < 1024 {
            format!("{b} B")
        } else if b < 1024 * 1024 {
            format!("{:.2} KB", f / 1024.0)
        } else if b < 1024 * 1024 * 1024 {
            format!("{:.2} MB", f / (1024.0 * 1024.0))
        } else if b < 1024u64.pow(4) {
            format!("{:.2} GB", f / (1024.0 * 1024.0 * 1024.0))
        } else {
            format!("{:.2} TB", f / (1024.0 * 1024.0 * 1024.0 * 1024.0))
        };
        assert_eq!(format_bytes(b), expected, "bytes {b}");
    }
}

#[test]
fn progress_legacy_and_v051_forms() {
    let p = parse_progress_message(
        "progress bytes_scanned=1048576 total_bytes=10485760 pct=10.0 hits=5 files=3 rate_mib=50.25 eta_secs=Some(180)",
    )
    .unwrap();
    assert_eq!(p.bytes_scanned, 1048576);
    assert_eq!(p.total_bytes, 10485760);
    assert_eq!(num(&p.pct), 10.0);
    assert_eq!(p.hits, 5);
    assert_eq!(p.files, 3);
    assert_eq!(num(&p.rate_mib), 50.25);
    assert_eq!(p.eta_secs, Some(180));
    let q = parse_progress_message(
        "progress 100.0% scanned=2097152/2097152 hits=2136 files=0 rate=109.81MiB/s eta=N/A errs=[carve:0 meta:0 sql:0]",
    )
    .unwrap();
    assert_eq!(q.bytes_scanned, 2_097_152);
    assert_eq!(q.total_bytes, 2_097_152);
    assert_eq!(q.hits, 2136);
    assert_eq!(q.eta_secs, None);
    assert!(parse_progress_message("progress 50% scanned=abc/def hits=0 files=0 rate=1MiB/s eta=N/A").is_none());
    assert!(parse_progress_message("hello").is_none());
}

#[test]
fn starting_message_names_run_and_output() {
    let info = parse_starting_message(
        "starting run_id=20260428T140203Z_09e96cdf input=test.dd output=out/20260428T140203Z_09e96cdf scan_workers=16",
    )
    .unwrap();
    assert_eq!(info.run_id, "20260428T140203Z_09e96cdf");
    assert_eq!(info.output, "out/20260428T140203Z_09e96cdf");
    assert!(parse_starting_message("starting run_id=x").is_none());
}

#[test]
fn eta_text_of_progress() {
    let mut p = ScanProgress::empty();
    assert_eq!(p.eta_formatted(), "calculating...");
    p.eta_secs = Some(90);
    assert_eq!(p.eta_formatted(), "1m 30s");
}

#[test]
fn discovery_reads_version_output() {
    assert!(discover_swiftbeaver(None, Some("swiftbeaver 0.6.7".to_string())).is_none());
    let d = discover_swiftbeaver(Some("/bin/swiftbeaver".to_string()), Some("swiftbeaver 0.6.7\n".to_string())).unwrap();
    assert_eq!(d.version_string.as_deref(), Some("swiftbeaver 0.6.7"));
    assert_eq!(d.version, Some((0, 6, 7)));
    assert_eq!(get_swiftbeaver_version(Some(d)), "0.6.7");
    assert_eq!(get_swiftbeaver_version(None), "not installed");
}

#[test]
fn incompatible_versions_explain_themselves() {
    let issue = CompatibilityIssue::UnsupportedVersion { detected: (0, 6, 6), minimum: (0, 6, 7) };
    assert_eq!(
        issue.user_message(),
        "swiftbeaver 0.6.6 is older than the minimum supported version v0.6.7. Please upgrade SwiftBeaver."
    );
    let raw = CompatibilityIssue::UnparseableVersion("garbage".to_string());
    assert_eq!(raw.user_message(), "Could not parse swiftbeaver --version output (\"garbage\"). Requires v0.6.7+.");
}

fn flag_value<'a>(args: &'a [String], flag: &str) -> Option<&'a str> {
    let idx = args.iter().position(|a| a == flag)?;
    args.get(idx + 1).map(|s| s.as_str())
}

#[test]
fn test_build_cli_args_basic() {
    let config = ScanConfig { input_path: "/tmp/test.dd".to_string(), output_path: "/tmp/output".to_string(), ..Default::default() };
    let args = build_cli_args(&config);
    assert_eq!(flag_value(&args, "--input"), Some("/tmp/test.dd"));
    assert_eq!(flag_value(&args, "--output"), Some("/tmp/output"));
    assert_eq!(flag_value(&args, "--log-format"), Some("json"));
    assert_eq!(flag_value(&args, "--metadata-backend"), Some("parquet"));
    for flag in ["--config-path", "--scan-workers", "--overlap-kib", "--string-min-len", "--scan-entropy", "--entropy-threshold", "--dry-run", "--dedupe", "--hash-algorithms"] {
        assert!(!args.iter().any(|a| a == flag), "default args unexpectedly contain {flag}");
    }
}

#[test]
fn test_build_cli_args_with_options() {
    let config = ScanConfig {
        input_path: "/evidence/disk.dd".to_string(),
        output_path: "/out".to_string(),
        scan_strings: true,
        gpu_enabled: true,
        max_files: Some(1000),
        scan_entropy: true,
        entropy_threshold_milli: 6500,
        hash_algorithms: vec!["md5".to_string(), "sha256".to_string()],
        ..Default::default()
    };
    let args = build_cli_args(&config);
    assert!(args.contains(&"--scan-strings".to_string()));
    assert!(args.contains(&"--gpu".to_string()));
    assert_eq!(flag_value(&args, "--max-files"), Some("1000"));
    assert_eq!(flag_value(&args, "--entropy-threshold"), Some("6.5"));
    assert_eq!(flag_value(&args, "--hash-algorithms"), Some("md5,sha256"));
}

fn num(o: &Option<String>) -> f64 {
    o.as_deref().map(|s| s.parse::<f64>().unwrap()).unwrap_or(0.0)
}

fn progress_payload(p: &LogPayload) -> &ScanProgress {
    match p {
        LogPayload::Progress(p) => p,
        other => panic!("expected a progress payload, got {other:?}"),
    }
}

fn starting_payload(p: &LogPayload) -> &StartInfo {
    match p {
        LogPayload::Starting(s) => s,
        other => panic!("expected a starting payload, got {other:?}"),
    }
}

#[test]
fn test_parse_progress_message_no_eta() {
    let msg = "progress bytes_scanned=1000 total_bytes=10000 pct=10.0 hits=0 files=0 rate_mib=100.0 eta_secs=None";
    let progress = parse_progress_message(msg).unwrap();
    assert_eq!(progress.eta_secs, None);
}

#[test]
fn test_parse_json_log_progress() {
    let line = r#"{"timestamp":"2024-01-01T00:00:00Z","level":"INFO","fields":{"message":"progress bytes_scanned=1000 total_bytes=10000 pct=10.0 hits=0 files=0 rate_mib=100.0 eta_secs=Some(90)"}}"#;
    let (event_type, payload) = parse_json_log(line).unwrap();
    assert_eq!(event_type, "progress");
    assert_eq!(progress_payload(&payload).bytes_scanned, 1000);
}

#[test]
fn test_parse_json_log_progress_legacy_format() {
    let line = r#"{"timestamp":"2024-01-01T00:00:00Z","level":"INFO","message":"progress bytes_scanned=1000 total_bytes=10000 pct=10.0 hits=0 files=0 rate_mib=100.0 eta_secs=Some(90)"}"#;
    let (event_type, payload) = parse_json_log(line).unwrap();
    assert_eq!(event_type, "progress");
    assert_eq!(progress_payload(&payload).bytes_scanned, 1000);
}

#[test]
fn test_parse_json_log_regular() {
    let line = r#"{"timestamp":"2024-01-01T00:00:00Z","level":"INFO","fields":{"message":"Starting scan"}}"#;
    let (event_type, payload) = parse_json_log(line).unwrap();
    assert_eq!(event_type, "info");
    match payload {
        LogPayload::Message(m) => assert_eq!(m, "Starting scan"),
        other => panic!("expected a message payload, got {other:?}"),
    }
}

#[test]
fn test_parse_json_log_starting() {
    let line = r#"{"timestamp":"2024-01-01T00:00:00Z","level":"INFO","fields":{"message":"starting run_id=20260103T125116Z_09ab31c2 input=/tmp/test.dd output=/tmp/out/20260103T125116Z_09ab31c2 workers=4 chunk_size=1048576"}}"#;
    let (event_type, payload) = parse_json_log(line).unwrap();
    assert_eq!(event_type, "starting");
    let info = starting_payload(&payload);
    assert_eq!(info.run_id, "20260103T125116Z_09ab31c2");
    assert_eq!(info.output, "/tmp/out/20260103T125116Z_09ab31c2");
}

#[test]
fn test_parse_starting_message() {
    let msg = "starting run_id=20260103T125116Z_09ab31c2 input=/tmp/test.dd output=/tmp/out/20260103T125116Z_09ab31c2 workers=4";
    let payload = parse_starting_message(msg).unwrap();
    assert_eq!(payload.run_id, "20260103T125116Z_09ab31c2");
    assert_eq!(payload.output, "/tmp/out/20260103T125116Z_09ab31c2");
}

#[test]
fn test_parse_progress_message_v051_eta_na() {
    let msg = "progress 100.1% scanned=209911808/209715200 hits=17758 files=0 rate=133.42MiB/s eta=N/A errs=[carve:0 meta:0 sql:0]";
    let progress = parse_progress_message(msg).unwrap();
    assert_eq!(progress.bytes_scanned, 209_911_808);
    assert_eq!(progress.total_bytes, 209_715_200);
    assert!((num(&progress.pct) - 100.1).abs() < 1e-6);
    assert_eq!(progress.hits, 17_758);
    assert_eq!(progress.files, 0);
    assert!((num(&progress.rate_mib) - 133.42).abs() < 1e-6);
    assert_eq!(progress.eta_secs, None);
}

#[test]
fn test_parse_progress_message_v051_eta_seconds() {
    let msg = "progress 19.2% scanned=403046400/2097152000 hits=5084 files=0 rate=345.26MiB/s eta=5s errs=[carve:0 meta:0 sql:0]";
    let progress = parse_progress_message(msg).unwrap();
    assert_eq!(progress.bytes_scanned, 403_046_400);
    assert_eq!(progress.total_bytes, 2_097_152_000);
    assert_eq!(progress.eta_secs, Some(5));
    assert!((num(&progress.rate_mib) - 345.26).abs() < 1e-6);
}

#[test]
fn test_parse_progress_message_legacy_still_works() {
    let msg = "progress bytes_scanned=1048576 total_bytes=10485760 pct=10.0 hits=5 files=3 rate_mib=50.25 eta_secs=Some(180)";
    let progress = parse_progress_message(msg).unwrap();
    assert_eq!(progress.bytes_scanned, 1_048_576);
    assert_eq!(progress.eta_secs, Some(180));
}

#[test]
fn test_parse_progress_message_malformed_returns_none() {
    assert!(parse_progress_message("hello world").is_none());
    assert!(parse_progress_message("progress garbage values here").is_none());
    assert!(parse_progress_message("progress 50% scanned=abc/def hits=0 files=0 rate=1MiB/s eta=N/A").is_none());
}

#[test]
fn test_parse_starting_message_v051_format() {
    let msg = "starting run_id=20260428T140203Z_09e96cdf input=test.dd output=out/20260428T140203Z_09e96cdf scan_workers=16 carve_workers=16 chunk_mib=64";
    let payload = parse_starting_message(msg).unwrap();
    assert_eq!(payload.run_id, "20260428T140203Z_09e96cdf");
    assert_eq!(payload.output, "out/20260428T140203Z_09e96cdf");
}

#[test]
fn test_parse_json_log_v051_progress_line() {
    let line = r#"{"timestamp":"2026-04-28T14:02:03.188362Z","level":"INFO","fields":{"message":"progress 100.0% scanned=2097152/2097152 hits=2136 files=0 rate=109.81MiB/s eta=N/A errs=[carve:0 meta:0 sql:0]"},"target":"swiftbeaver"}"#;
    let (event_type, payload) = parse_json_log(line).unwrap();
    assert_eq!(event_type, "progress");
    assert_eq!(progress_payload(&payload).bytes_scanned, 2_097_152);
    assert_eq!(progress_payload(&payload).total_bytes, 2_097_152);
}

#[test]
fn test_parse_json_log_garbage_does_not_panic() {
    assert!(parse_json_log("not json at all").is_none());
    assert!(parse_json_log("").is_none());
    assert!(parse_json_log(r#"{"foo":"bar"}"#).is_none());
}

#[test]
fn json_log_levels_are_lower_cased_and_need_a_message() {
    let (et, payload) = parse_json_log(r#"{"level":"WARN","message":"disk slow"}"#).unwrap();
    assert_eq!(et, "warn");
    assert!(matches!(payload, LogPayload::Message(ref m) if m == "disk slow"));
    assert!(parse_json_log(r#"{"level":"INFO"}"#).is_none());
    assert!(parse_json_log(r#"{"message":"x"}"#).is_none());
    let (et, payload) = parse_json_log(r#"{"level":"INFO","message":"starting run_id=r"}"#).unwrap();
    assert_eq!(et, "info");
    assert!(matches!(payload, LogPayload::Message(ref m) if m == "starting run_id=r"));
}

#[test]
fn test_generate_run_id() {
    let id1 = generate_run_id();
    let id2 = generate_run_id();
    assert_ne!(id1, id2);
    assert!(id1.len() > 10);
}

#[test]
fn test_build_cli_args_default_does_not_emit_optional_flags() {
    let config = ScanConfig { input_path: "/tmp/test.dd".to_string(), output_path: "/tmp/output".to_string(), ..Default::default() };
    let args = build_cli_args(&config);
    for flag in [
        "--config-path", "--scan-workers", "--carve-workers", "--write-workers", "--overlap-kib",
        "--string-min-len", "--scan-entropy", "--entropy-window-bytes", "--entropy-threshold",
        "--max-chunks", "--max-open-files", "--checkpoint-path", "--resume-from", "--evidence-sha256",
        "--dry-run", "--metadata-only", "--validate-carved", "--remove-invalid", "--hash-algorithms",
        "--dedupe", "--skip-duplicates",
    ] {
        assert!(!args.iter().any(|a| a == flag), "default args unexpectedly contain {flag}: {args:?}");
    }
}

#[test]
fn test_build_cli_args_advanced_options_snapshot() {
    let config = ScanConfig {
        input_path: "/evidence/disk.dd".to_string(),
        output_path: "/out".to_string(),
        config_path: Some("/etc/swiftbeaver.yaml".to_string()),
        evidence_sha256: Some("deadbeef".to_string()),
        scan_workers: 4,
        carve_workers: 8,
        write_workers: 2,
        workers: 16,
        overlap_kib: Some(128),
        string_min_len: 12,
        scan_entropy: true,
        entropy_window_bytes: Some(4096),
        entropy_threshold_milli: 6500,
        max_chunks: Some(10),
        max_open_files: Some(2048),
        checkpoint_path: Some("/var/tmp/run.ckpt".to_string()),
        resume_from: Some("/var/tmp/run.ckpt".to_string()),
        dry_run: false,
        metadata_only: false,
        validate_carved: true,
        remove_invalid: true,
        hash_algorithms: vec!["md5".to_string(), "sha256".to_string()],
        dedupe: true,
        skip_duplicates: true,
        ..Default::default()
    };
    let args = build_cli_args(&config);
    assert_eq!(flag_value(&args, "--config-path"), Some("/etc/swiftbeaver.yaml"));
    assert_eq!(flag_value(&args, "--evidence-sha256"), Some("deadbeef"));
    assert_eq!(flag_value(&args, "--workers"), Some("16"));
    assert_eq!(flag_value(&args, "--scan-workers"), Some("4"));
    assert_eq!(flag_value(&args, "--carve-workers"), Some("8"));
    assert_eq!(flag_value(&args, "--write-workers"), Some("2"));
    assert_eq!(flag_value(&args, "--overlap-kib"), Some("128"));
    assert_eq!(flag_value(&args, "--string-min-len"), Some("12"));
    assert!(args.iter().any(|a| a == "--scan-entropy"));
    assert_eq!(flag_value(&args, "--entropy-window-bytes"), Some("4096"));
    assert_eq!(flag_value(&args, "--entropy-threshold"), Some("6.5"));
    assert_eq!(flag_value(&args, "--max-chunks"), Some("10"));
    assert_eq!(flag_value(&args, "--max-open-files"), Some("2048"));
    assert_eq!(flag_value(&args, "--checkpoint-path"), Some("/var/tmp/run.ckpt"));
    assert_eq!(flag_value(&args, "--resume-from"), Some("/var/tmp/run.ckpt"));
    assert!(!args.iter().any(|a| a == "--metadata-only"));
    assert!(!args.iter().any(|a| a == "--dry-run"));
    assert!(args.iter().any(|a| a == "--validate-carved"));
    assert!(args.iter().any(|a| a == "--remove-invalid"));
    assert_eq!(flag_value(&args, "--hash-algorithms"), Some("md5,sha256"));
    assert!(args.iter().any(|a| a == "--dedupe"));
    assert!(args.iter().any(|a| a == "--skip-duplicates"));
}

#[test]
fn test_build_cli_args_empty_optional_strings_are_skipped() {
    let config = ScanConfig {
        input_path: "/tmp/test.dd".to_string(),
        output_path: "/tmp/output".to_string(),
        config_path: Some(String::new()),
        evidence_sha256: Some(String::new()),
        checkpoint_path: Some(String::new()),
        resume_from: Some(String::new()),
        ..Default::default()
    };
    let args = build_cli_args(&config);
    for flag in ["--config-path", "--evidence-sha256", "--checkpoint-path", "--resume-from"] {
        assert!(!args.iter().any(|a| a == flag), "empty optional emitted {flag}: {args:?}");
    }
}

#[test]
fn test_build_cli_args_entropy_window_only_when_scan_entropy_enabled() {
    let config = ScanConfig {
        input_path: "/tmp/x".to_string(),
        output_path: "/tmp/o".to_string(),
        scan_entropy: false,
        entropy_window_bytes: Some(8192),
        ..Default::default()
    };
    let args = build_cli_args(&config);
    assert!(!args.iter().any(|a| a == "--entropy-window-bytes"));
    assert!(!args.iter().any(|a| a == "--scan-entropy"));
}

#[test]
fn test_build_cli_args_metadata_only_mode() {
    let config = ScanConfig { input_path: "/tmp/x".to_string(), output_path: "/tmp/o".to_string(), metadata_only: true, ..Default::default() };
    let args = build_cli_args(&config);
    assert!(args.iter().any(|a| a == "--metadata-only"));
    assert!(!args.iter().any(|a| a == "--validate-carved"));
    assert!(!args.iter().any(|a| a == "--remove-invalid"));
}

#[test]
fn test_validate_flag_combinations_detects_invalid_pairs() {
    let config = ScanConfig {
        dry_run: true,
        metadata_only: true,
        validate_carved: false,
        remove_invalid: true,
        dedupe: false,
        skip_duplicates: true,
        hash_algorithms: vec!["sha1".to_string()],
        ..Default::default()
    };
    let issues = validate_flag_combinations(&config);
    assert!(issues.iter().any(|i| i.contains("dry-run") && i.contains("metadata-only")));
    assert!(issues.iter().any(|i| i.contains("--remove-invalid")));
    assert!(issues.iter().any(|i| i.contains("--skip-duplicates")));
    assert!(issues.iter().any(|i| i.contains("sha1")));
}

#[test]
fn test_validate_flag_combinations_accepts_valid_combo() {
    let config = ScanConfig {
        dry_run: false,
        metadata_only: false,
        validate_carved: true,
        remove_invalid: true,
        dedupe: true,
        skip_duplicates: true,
        hash_algorithms: vec!["MD5".to_string(), "sha256".to_string()],
        ..Default::default()
    };
    assert!(validate_flag_combinations(&config).is_empty());
}

#[test]
fn test_validate_flag_combinations_rejects_checkpoint_on_evidence() {
    let config = ScanConfig {
        input_path: "/evidence/disk.dd".to_string(),
        checkpoint_path: Some("/evidence/disk.dd".to_string()),
        ..Default::default()
    };
    let issues = validate_flag_combinations(&config);
    assert!(
        issues.iter().any(|i| i.contains("--checkpoint-path") && i.contains("evidence")),
        "expected evidence-overwrite rejection, got: {issues:?}"
    );
}

#[test]
fn test_validate_flag_combinations_rejects_checkpoint_on_raw_device() {
    let config = ScanConfig {
        input_path: "/dev/sda".to_string(),
        checkpoint_path: Some("/dev/sdb".to_string()),
        ..Default::default()
    };
    let issues = validate_flag_combinations(&config);
    assert!(issues.iter().any(|i| i.contains("raw block device")), "expected raw-device rejection, got: {issues:?}");
}

#[test]
fn test_validate_flag_combinations_allows_safe_checkpoint_path() {
    let config = ScanConfig {
        input_path: "/evidence/disk.dd".to_string(),
        checkpoint_path: Some("/var/tmp/run.ckpt".to_string()),
        ..Default::default()
    };
    assert!(validate_flag_combinations(&config).is_empty());
}

#[test]
fn test_progress_parsing() {
    let msg = "progress bytes_scanned=52428800 total_bytes=104857600 pct=50.0 hits=100 files=75 rate_mib=250.5 eta_secs=Some(200)";
    let progress = parse_progress_message(msg).unwrap();
    assert_eq!(progress.bytes_scanned, 52428800);
    assert_eq!(progress.total_bytes, 104857600);
    assert_eq!(num(&progress.pct), 50.0);
    assert_eq!(progress.hits, 100);
    assert_eq!(progress.files, 75);
    assert!((num(&progress.rate_mib) - 250.5).abs() < 0.01);
    assert_eq!(progress.eta_secs, Some(200));
}

#[test]
fn test_swiftbeaver_binary_discovery() {
    // Reports whether a binary is installed; never fails.
    match find_swiftbeaver_binary(None, false) {
        Some(path) => println!("swiftbeaver binary found at {path}"),
        None => println!("swiftbeaver binary not found - download from GitHub releases"),
    }
}

#[test]
fn test_find_in_dirs_returns_none_when_missing() {
    let dirs = vec!["/nonexistent/swiftbeaverlodge/empty".to_string()];
    assert_eq!(find_in_dirs_for_platform("swiftbeaver", &dirs, false), None);
}

#[test]
fn v051_json_log_fixture_parses_starting_and_progress() {
    let lines = [
        r#"{"timestamp":"2026-04-28T14:02:03.166515Z","level":"INFO","fields":{"message":"starting run_id=20260428T140203Z_09e96cdf input=test.dd output=out/20260428T140203Z_09e96cdf scan_workers=16 carve_workers=16 chunk_mib=64"},"target":"swiftbeaver"}"#,
        r#"{"timestamp":"2026-04-28T14:02:03.170000Z","level":"INFO","fields":{"message":"progress 50.0% scanned=1048576/2097152 hits=12 files=3 rate=42.50MiB/s eta=5s errs=[carve:0 meta:0 sql:0]"},"target":"swiftbeaver"}"#,
        r#"{"timestamp":"2026-04-28T14:02:03.188362Z","level":"INFO","fields":{"message":"progress 100.0% scanned=2097152/2097152 hits=24 files=6 rate=43.00MiB/s eta=N/A errs=[carve:0 meta:0 sql:0]"},"target":"swiftbeaver"}"#,
    ];
    assert_eq!(lines.len(), 3);

    let (event_type, payload) = parse_json_log(lines[0]).unwrap();
    assert_eq!(event_type, "starting");
    let info = starting_payload(&payload);
    assert_eq!(info.run_id, "20260428T140203Z_09e96cdf");
    assert_eq!(info.output, "out/20260428T140203Z_09e96cdf");

    let (event_type, payload) = parse_json_log(lines[1]).unwrap();
    assert_eq!(event_type, "progress");
    let progress = progress_payload(&payload);
    assert_eq!(progress.bytes_scanned, 1_048_576);
    assert_eq!(progress.total_bytes, 2_097_152);
    assert_eq!(progress.hits, 12);
    assert_eq!(progress.files, 3);
    assert_eq!(progress.eta_secs, Some(5));
    assert!((num(&progress.rate_mib) - 42.50).abs() < f64::EPSILON);

    let (_, payload) = parse_json_log(lines[2]).unwrap();
    let complete = progress_payload(&payload);
    assert_eq!(complete.eta_secs, None);
    assert_eq!(complete.bytes_scanned, complete.total_bytes);
}

#[test]
fn v051_invalid_option_combinations_cover_dependent_flags() {
    let remove_invalid_without_validation = ScanConfig { remove_invalid: true, validate_carved: false, ..Default::default() };
    assert_eq!(
        validate_flag_combinations(&remove_invalid_without_validation),
        vec!["--remove-invalid requires --validate-carved".to_string()]
    );
    let skip_duplicates_without_dedupe = ScanConfig { skip_duplicates: true, dedupe: false, ..Default::default() };
    assert_eq!(
        validate_flag_combinations(&skip_duplicates_without_dedupe),
        vec!["--skip-duplicates requires --dedupe".to_string()]
    );
}

#[test]
fn chunk_size_is_always_emitted() {
    let config = ScanConfig { input_path: "/in".to_string(), output_path: "/out".to_string(), ..Default::default() };
    assert_eq!(flag_value(&build_cli_args(&config), "--chunk-size-mib"), Some("64"));
    let config = ScanConfig { chunk_size_mib: 256, overlap_kib: Some(64), ..config };
    let args = build_cli_args(&config);
    assert_eq!(flag_value(&args, "--chunk-size-mib"), Some("256"));
    assert_eq!(flag_value(&args, "--overlap-kib"), Some("64"));
}

#[test]
fn hash_algorithms_flag_only_with_a_selection() {
    let config = ScanConfig { input_path: "/in".to_string(), output_path: "/out".to_string(), ..Default::default() };
    assert!(!build_cli_args(&config).iter().any(|a| a == "--hash-algorithms"));
    let config = ScanConfig { hash_algorithms: vec!["sha256".to_string()], ..config };
    assert_eq!(flag_value(&build_cli_args(&config), "--hash-algorithms"), Some("sha256"));
}

#[test]
fn engine_search_dirs_in_order() {
    assert_eq!(
        swiftbeaverlodge::scan::binary_search_dirs(Some("/opt/lodge".to_string())),
        vec!["/opt/lodge/bin".to_string(), "bin".to_string()]
    );
    assert_eq!(swiftbeaverlodge::scan::binary_search_dirs(None), vec!["bin".to_string()]);
}
