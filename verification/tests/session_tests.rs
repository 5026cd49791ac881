use swiftbeaverlodge::config::ScanConfig;
use swiftbeaverlodge::scan::progress::ScanProgress;
use swiftbeaverlodge::scan::session::{
    dispatch_log_line, finish_messages, preflight, process_started, spawn_failed, ProcessEnd,
    ScanManager, ScanMessage,
};
use swiftbeaverlodge::scan::{DiscoveredBinary, LogEntry, ScanState};

fn log(m: &ScanMessage) -> Option<(&str, &str)> {
    match m {
        ScanMessage::Log(e) => Some((e.level.as_str(), e.message.as_str())),
        _ => None,
    }
}

#[test]
fn test_scan_manager_initial_state() {
    let manager = ScanManager::new();
    assert_eq!(manager.state(), ScanState::Idle);
    assert!(manager.progress().is_none());
    assert!(manager.logs().is_empty());
    assert!(manager.run_output_path().is_none());
}

#[test]
fn plain_lines_become_logs_with_default_level() {
    let msgs = dispatch_log_line("hello world", "STDERR");
    assert_eq!(msgs.len(), 1);
    assert_eq!(log(&msgs[0]), Some(("STDERR", "hello world")));
    assert!(dispatch_log_line("", "INFO").is_empty());
}

#[test]
fn json_progress_lines_become_progress() {
    let line = r#"{"timestamp":"2026-04-28T14:02:03.188362Z","level":"INFO","fields":{"message":"progress 100.0% scanned=2097152/2097152 hits=2136 files=0 rate=109.81MiB/s eta=N/A errs=[carve:0 meta:0 sql:0]"},"target":"swiftbeaver"}"#;
    let msgs = dispatch_log_line(line, "INFO");
    assert_eq!(msgs.len(), 1);
    match &msgs[0] {
        ScanMessage::Progress(p) => {
            assert_eq!(p.bytes_scanned, 2_097_152);
            assert_eq!(p.total_bytes, 2_097_152);
        }
        _ => panic!("expected progress"),
    }
}

#[test]
fn json_starting_lines_announce_output() {
    let line = r#"{"level":"INFO","message":"starting run_id=r1 input=in.dd output=out/r1 workers=4"}"#;
    let msgs = dispatch_log_line(line, "INFO");
    assert_eq!(msgs.len(), 2);
    match &msgs[0] {
        ScanMessage::RunOutputPath { run_id, output_path } => {
            assert_eq!(run_id, "r1");
            assert_eq!(output_path, "out/r1");
        }
        _ => panic!("expected run output path"),
    }
    assert_eq!(log(&msgs[1]), Some(("INFO", "Run ID: r1 → Output: out/r1")));
    let no_output = r#"{"level":"INFO","message":"starting run_id=r1"}"#;
    let msgs = dispatch_log_line(no_output, "INFO");
    assert_eq!(msgs.len(), 1);
    assert_eq!(log(&msgs[0]), Some(("INFO", "starting run_id=r1")));
}

#[test]
fn json_log_lines_keep_level_in_upper_case() {
    let msgs = dispatch_log_line(r#"{"level":"warn","message":"careful"}"#, "INFO");
    assert_eq!(log(&msgs[0]), Some(("WARN", "careful")));
    let missing = dispatch_log_line(r#"{"foo":"bar"}"#, "INFO");
    assert_eq!(log(&missing[0]), Some(("INFO", r#"{"foo":"bar"}"#)));
}

#[test]
fn poll_applies_messages_and_releases_worker() {
    let mut m = ScanManager::new();
    let config = ScanConfig { input_path: "/in.dd".to_string(), output_path: "/out".to_string(), ..Default::default() };
    let args = m.begin_scan(&config);
    assert!(args.contains(&"/in.dd".to_string()));
    assert_eq!(m.state(), ScanState::Running);
    assert_eq!(m.logs().len(), 1);
    assert_eq!(m.logs()[0].message, "Starting scan on: /in.dd");
    m.poll(vec![
        ScanMessage::Progress(ScanProgress::empty()),
        ScanMessage::RunOutputPath { run_id: "r".to_string(), output_path: "/out/r".to_string() },
        ScanMessage::Log(LogEntry { timestamp: "t".to_string(), level: "INFO".to_string(), message: "x".to_string() }),
    ]);
    assert!(m.is_connected());
    assert!(m.progress().is_some());
    assert_eq!(m.run_output_path(), Some("/out/r"));
    assert_eq!(m.logs().len(), 2);
    assert_eq!(m.stop(), Ok(true));
    m.poll(vec![ScanMessage::Error("boom".to_string()), ScanMessage::StateChange(ScanState::Failed)]);
    assert_eq!(m.state(), ScanState::Failed);
    assert_eq!(m.error(), Some("boom"));
    assert_eq!(m.logs().last().unwrap().level, "ERROR");
    assert!(!m.is_connected());
    assert_eq!(m.stop(), Err("No scan in progress".to_string()));
    m.poll(vec![ScanMessage::StateChange(ScanState::Running)]);
    assert_eq!(m.state(), ScanState::Failed);
}

#[test]
fn start_is_refused_while_running_or_for_bad_flags() {
    let mut m = ScanManager::new();
    let mut config = ScanConfig::default();
    config.input_path = "/definitely/not/here.dd".to_string();
    assert_eq!(m.check_start(&config), Err("Input file does not exist: /definitely/not/here.dd".to_string()));
    config.remove_invalid = true;
    assert!(m.check_start(&config).unwrap_err().starts_with("Invalid scan configuration: "));
    m.begin_scan(&ScanConfig::default());
    assert_eq!(m.check_start(&config), Err("Scan already in progress".to_string()));
}

#[test]
fn worker_outcomes() {
    let not_found = preflight(None).unwrap_err();
    assert_eq!(not_found.len(), 2);
    assert!(matches!(&not_found[1], ScanMessage::StateChange(ScanState::Failed)));
    let ok = DiscoveredBinary { path: "/bin/sb".to_string(), version: Some((0, 7, 0)), version_string: None };
    assert_eq!(preflight(Some(ok)).unwrap(), "/bin/sb");
    let old = DiscoveredBinary { path: "/bin/sb".to_string(), version: Some((0, 5, 0)), version_string: None };
    assert!(preflight(Some(old)).is_err());
    let spawn = spawn_failed("no such file");
    match &spawn[0] {
        ScanMessage::Error(e) => assert_eq!(e, "Failed to spawn swiftbeaver: no such file"),
        _ => panic!("expected error"),
    }
    assert_eq!(log(&process_started(42)), Some(("INFO", "Process started with PID: 42")));
    let done = finish_messages(ProcessEnd::Exited { success: false, code: Some(-2) });
    match &done[0] {
        ScanMessage::Error(e) => assert_eq!(e, "Process exited with code: Some(-2)"),
        _ => panic!("expected error"),
    }
    assert_eq!(log(&done[1]), Some(("ERROR", "Scan failed: exit code Some(-2)")));
    assert!(matches!(done[2], ScanMessage::StateChange(ScanState::Failed)));
    let cancelled = finish_messages(ProcessEnd::Cancelled);
    assert!(matches!(cancelled[1], ScanMessage::StateChange(ScanState::Cancelled)));
    let none = finish_messages(ProcessEnd::Exited { success: false, code: None });
    match &none[0] {
        ScanMessage::Error(e) => assert_eq!(e, "Process exited with code: None"),
        _ => panic!("expected error"),
    }
}

#[test]
fn test_start_rejects_unsafe_checkpoint_before_spawning() {
    let manager = ScanManager::new();
    let config = ScanConfig {
        input_path: "/tmp".to_string(),
        output_path: "/tmp/sblodge_test_output".to_string(),
        checkpoint_path: Some("/dev/null".to_string()),
        ..Default::default()
    };
    let err = manager.check_start(&config).expect_err("start must reject raw-device checkpoint paths");
    assert!(err.contains("Invalid scan configuration") && err.contains("raw block device"), "unexpected error: {err}");
    assert_eq!(manager.state(), ScanState::Idle);
}

#[test]
fn test_dispatch_log_line_v051_progress() {
    let line = r#"{"timestamp":"2026-04-28T14:02:03.188362Z","level":"INFO","fields":{"message":"progress 50.0% scanned=1048576/2097152 hits=12 files=0 rate=42.5MiB/s eta=5s errs=[carve:0 meta:0 sql:0]"},"target":"swiftbeaver"}"#;
    let msgs = dispatch_log_line(line, "INFO");
    match msgs.first().expect("expected a progress message") {
        ScanMessage::Progress(p) => {
            assert_eq!(p.bytes_scanned, 1_048_576);
            assert_eq!(p.total_bytes, 2_097_152);
            assert_eq!(p.eta_secs, Some(5));
        }
        other => panic!("expected Progress, got {other:?}"),
    }
}

#[test]
fn test_dispatch_log_line_starting_emits_run_output_path() {
    let line = r#"{"timestamp":"2026-04-28T14:02:03.166515Z","level":"INFO","fields":{"message":"starting run_id=20260428T140203Z_09e96cdf input=test.dd output=out/20260428T140203Z_09e96cdf scan_workers=16 carve_workers=16 chunk_mib=64"},"target":"swiftbeaver"}"#;
    let msgs = dispatch_log_line(line, "INFO");
    match msgs.first().expect("expected RunOutputPath message") {
        ScanMessage::RunOutputPath { run_id, output_path } => {
            assert_eq!(run_id, "20260428T140203Z_09e96cdf");
            assert_eq!(output_path, "out/20260428T140203Z_09e96cdf");
        }
        other => panic!("expected RunOutputPath, got {other:?}"),
    }
    assert!(matches!(msgs.get(1), Some(ScanMessage::Log(_))));
}

#[test]
fn test_dispatch_log_line_plain_text_uses_default_level() {
    let msgs = dispatch_log_line("not json at all", "STDERR");
    match msgs.first().expect("expected log message") {
        ScanMessage::Log(entry) => {
            assert_eq!(entry.level, "STDERR");
            assert_eq!(entry.message, "not json at all");
        }
        other => panic!("expected Log, got {other:?}"),
    }
}

#[test]
fn test_dispatch_log_line_empty_line_is_ignored() {
    let msgs = dispatch_log_line("", "STDERR");
    assert!(msgs.is_empty(), "empty line must not emit a message");
}

#[test]
fn test_dispatch_log_line_does_not_panic_on_garbage_json() {
    let msgs = dispatch_log_line(r#"{"foo":"bar"}"#, "INFO");
    match msgs.first().expect("expected log message") {
        ScanMessage::Log(entry) => {
            assert_eq!(entry.level, "INFO");
            assert!(entry.message.contains("foo"));
        }
        other => panic!("expected Log, got {other:?}"),
    }
}

#[test]
fn progress_and_starting_levels_without_payload_are_dropped() {
    assert!(dispatch_log_line(r#"{"level":"PROGRESS","message":"hello"}"#, "INFO").is_empty());
    assert!(dispatch_log_line(r#"{"level":"starting","message":"hello"}"#, "INFO").is_empty());
}

#[test]
fn start_refuses_a_missing_resume_checkpoint() {
    let m = ScanManager::new();
    let mut config = ScanConfig::default();
    config.input_path = "/tmp".to_string();
    config.resume_from = Some("/definitely/not/here/checkpoint.json".to_string());
    assert_eq!(
        m.check_start(&config),
        Err("Resume checkpoint file does not exist: /definitely/not/here/checkpoint.json".to_string())
    );
    // An empty checkpoint path names no checkpoint.
    config.resume_from = Some(String::new());
    assert_eq!(m.check_start(&config), Ok(()));
}
