use swiftbeaverlodge::backend::scan::{
    build_cli_args, completion_event, generate_run_id, get_extension, parse_option_u64,
    parse_progress_message, run_id_from, ScanManager,
};
use swiftbeaverlodge::backend::progress::{
    parse_json_log, stderr_event, stdout_event, GuiLogPayload, OutputEvent,
};
use swiftbeaverlodge::backend::system::{
    driver_of_uevent, engine_version_label, gpu_from_uevent, is_drm_card, split_lines,
};
use swiftbeaverlodge::backend::types::{GuiScanConfig, ScanState};
use swiftbeaverlodge::scan::progress::parse_progress_message as scan_progress_message;

#[test]
fn test_parse_option_u64() {
    assert_eq!(parse_option_u64(Some("Some(60)")), Some(60));
    assert_eq!(parse_option_u64(Some("None")), None);
    assert_eq!(parse_option_u64(None), None);
}

#[test]
fn option_values_edge_cases() {
    assert_eq!(parse_option_u64(Some("Some()")), None);
    assert_eq!(parse_option_u64(Some("Some(+7)")), Some(7));
    assert_eq!(parse_option_u64(Some("60")), None);
}

#[test]
fn progress_test_parse_progress_message() {
    // The scanner's own parser.
    let msg = "progress bytes_scanned=1048576 total_bytes=10485760 pct=10.0 hits=5 files=3 rate_mib=50.25 eta_secs=Some(180)";
    let progress = scan_progress_message(msg).unwrap();
    assert_eq!(progress.bytes_scanned, 1048576);
    assert_eq!(progress.total_bytes, 10485760);
    assert_eq!(progress.pct.as_deref().unwrap().parse::<f64>().unwrap(), 10.0);
    assert_eq!(progress.hits, 5);
    assert_eq!(progress.files, 3);
    assert_eq!(progress.rate_mib.as_deref().unwrap().parse::<f64>().unwrap(), 50.25);
    assert_eq!(progress.eta_secs, Some(180));

    // The backend's parser.
    let msg = "progress bytes_scanned=1048576 total_bytes=10485760 pct=10.0 hits=5 files=3 rate_mib=150.25 eta_secs=Some(60) carve_errs=0 meta_errs=0 sqlite_errs=0";
    let progress = parse_progress_message(msg).unwrap();
    assert_eq!(progress.bytes_scanned, 1048576);
    assert_eq!(progress.total_bytes, 10485760);
    assert_eq!(progress.hits_found, 5);
    assert_eq!(progress.files_carved, 3);
    assert_eq!(progress.throughput_mib.parse::<f64>().unwrap(), 150.25);
    assert_eq!(progress.eta_seconds, Some(60));
    assert!(parse_progress_message("progress bytes_scanned=1").is_none());
    let later = parse_progress_message("progress bytes_scanned=1 bytes_scanned=2 total_bytes=3 hits=0 files=0 rate_mib=1e3").unwrap();
    assert_eq!(later.bytes_scanned, 2);
    assert_eq!(later.elapsed_seconds, None);
}

#[test]
fn gui_cli_args_skip_defaults() {
    let mut c = GuiScanConfig::default();
    c.input_path = "/in".to_string();
    c.output_path = "/out".to_string();
    let args = build_cli_args(&c);
    assert_eq!(
        args,
        vec![
            "--input", "/in", "--output", "/out", "--log-format", "json", "--progress-interval-secs", "1",
            "--metadata-backend", "parquet", "--types", "jpeg,png,gif,pdf,zip,sqlite,docx,xlsx,pptx",
            "--scan-strings", "--compute-evidence-sha256",
        ]
    );
    c.scan_entropy = true;
    c.entropy_threshold_milli = 7250;
    c.compute_evidence_hash = false;
    c.evidence_sha256 = Some("ab".to_string());
    c.workers = 3;
    let args = build_cli_args(&c);
    assert!(args.windows(2).any(|w| w[0] == "--entropy-threshold" && w[1] == "7.25"));
    assert!(args.windows(2).any(|w| w[0] == "--evidence-sha256" && w[1] == "ab"));
    assert!(args.windows(2).any(|w| w[0] == "--workers" && w[1] == "3"));
}

#[test]
fn run_ids_have_timestamp_and_hex() {
    assert_eq!(run_id_from("20240101_000000", 255), "20240101_000000_0000ff");
    assert_eq!(run_id_from("t", 0xFFFFFF), "t_000000");
    assert_eq!(run_id_from("t", 0xABCDEF0), "t_bcdefa");
    let id = generate_run_id();
    assert!(id.len() > 10);
}

#[test]
fn extensions() {
    assert_eq!(get_extension("carved/0001.bek"), "bek");
    assert_eq!(get_extension("noext"), "");
    assert_eq!(get_extension(".hidden"), "");
}

#[test]
fn manager_states() {
    let mut m = ScanManager::new();
    assert!(m.can_start());
    assert_eq!(m.stop(), Err("No scan in progress to stop".to_string()));
    let h = m.begin(&GuiScanConfig::default(), "r1".to_string(), "now".to_string());
    assert_eq!(h.run_id, "r1");
    assert!(!m.can_start());
    m.set_child(Some(7));
    assert_eq!(m.stop(), Ok(Some(7)));
    assert_eq!(m.get_status().state, ScanState::Cancelled);
    m.mark_failed("x".to_string());
    assert_eq!(m.get_status().error.as_deref(), Some("x"));
    m.reset();
    assert_eq!(m.get_status().state, ScanState::Idle);
}

#[test]
fn completion_events() {
    assert_eq!(completion_event(true, Ok(0)).state, ScanState::Cancelled);
    assert_eq!(completion_event(false, Ok(0)).message.as_deref(), Some("Scan completed successfully"));
    assert_eq!(completion_event(false, Ok(-1)).message.as_deref(), Some("Process exited with code -1"));
    assert_eq!(completion_event(false, Err("e".to_string())).state, ScanState::Failed);
}

#[test]
fn backend_json_log_reads_progress_and_entries() {
    let line = r#"{"level":"INFO","message":"progress bytes_scanned=10 total_bytes=20 hits=1 files=2 rate_mib=3.5"}"#;
    match parse_json_log(line) {
        Some((et, GuiLogPayload::Progress(p))) => {
            assert_eq!(et, "progress");
            assert_eq!(p.bytes_scanned, 10);
            assert_eq!(p.total_bytes, 20);
            assert_eq!(p.throughput_mib, "3.5");
        }
        other => panic!("unexpected {other:?}"),
    }
    let structured = r#"{"level":"INFO","fields":{"bytes_scanned":5,"total_bytes":9,"hits":4,"files_carved":"x","files":7,"throughput_mib":150.25,"eta_seconds":60}}"#;
    match parse_json_log(structured) {
        Some((et, GuiLogPayload::Progress(p))) => {
            assert_eq!(et, "progress");
            assert_eq!(p.bytes_scanned, 5);
            assert_eq!(p.hits_found, 4);
            // A present but non-numeric preferred counter counts as 0.
            assert_eq!(p.files_carved, 0);
            assert_eq!(p.throughput_mib, "150.25");
            assert_eq!(p.elapsed_seconds, None);
            assert_eq!(p.eta_seconds, Some(60));
        }
        other => panic!("unexpected {other:?}"),
    }
    let no_total = r#"{"level":"WARN","message":"slow","target":"t","fields":{"bytes_scanned":5}}"#;
    match parse_json_log(no_total) {
        Some((et, GuiLogPayload::Entry { message, target, timestamp })) => {
            assert_eq!(et, "warn");
            assert_eq!(message, "slow");
            assert_eq!(target, "t");
            assert_eq!(timestamp, "");
        }
        other => panic!("unexpected {other:?}"),
    }
    assert!(parse_json_log("not json").is_none());
    assert!(parse_json_log(r#"{"message":"no level"}"#).is_none());
}

#[test]
fn drm_cards_and_uevent_drivers() {
    assert!(is_drm_card("card0"));
    assert!(!is_drm_card("card0-HDMI-A-1"));
    assert!(!is_drm_card("renderD128"));
    let lines = split_lines(&"a\r\nb\n\nc\n".chars().collect::<Vec<_>>());
    let lines: Vec<String> = lines.into_iter().map(|l| l.into_iter().collect()).collect();
    assert_eq!(lines, vec!["a", "b", "", "c"]);
    let uevent = "DRIVER=i915\nPCI_CLASS=30000\nDRIVER=DRIVER=amdgpu\n";
    assert_eq!(driver_of_uevent(uevent).as_deref(), Some("amdgpu"));
    let gpu = gpu_from_uevent("card1", "PCI_ID=10DE:1234\nDRIVER=nvidia\n");
    assert_eq!(gpu.name, "NVIDIA GPU (card1)");
    assert_eq!(gpu.vendor.as_deref(), Some("NVIDIA"));
    assert_eq!(gpu.driver_version.as_deref(), Some("nvidia"));
    assert_eq!(gpu.backend, "Native");
    let unknown = gpu_from_uevent("card2", "DRIVER=vfio-pci");
    assert_eq!(unknown.name, "GPU card2");
    assert_eq!(unknown.vendor, None);
    assert_eq!(engine_version_label(Some(" fastcarve 0.2.1\n")), "0.2.1");
    assert_eq!(engine_version_label(Some("swiftbeaver 0.6.7")), "swiftbeaver 0.6.7");
    assert_eq!(engine_version_label(None), "not installed");
}

#[test]
fn stdout_lines_become_events() {
    match stdout_event(r#"{"level":"WARN","message":"slow disk"}"#) {
        Some(OutputEvent::Log(e)) => {
            assert_eq!(e.level, "warn");
            assert_eq!(e.message, "slow disk");
        }
        other => panic!("unexpected {other:?}"),
    }
    assert!(matches!(
        stdout_event(r#"{"level":"INFO","message":"progress bytes_scanned=1 total_bytes=2 hits=0 files=0 rate_mib=1"}"#),
        Some(OutputEvent::Progress(_))
    ));
    assert!(stdout_event(r#"{"level":"TRACE","message":"x"}"#).is_none());
    assert!(stdout_event(r#"{"level":"PROGRESS","message":"x"}"#).is_none());
    assert!(stdout_event("plain text").is_none());
    let e = stderr_event("boom".to_string());
    assert_eq!(e.level, "error");
    assert_eq!(e.message, "boom");
}
