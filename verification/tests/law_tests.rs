use swiftbeaverlodge::config::{flag_issues_for, ScanConfig};
use swiftbeaverlodge::metadata::types::MetadataRecord;
use swiftbeaverlodge::scan::manager::build_cli_args;
use swiftbeaverlodge::scan::{dir_candidate_paths, first_present, parse_swiftbeaver_version, pick_binary};
use swiftbeaverlodge::scan::session::{
    capture_failed, dispatch_log_line, finish_messages, process_started, start_decision, ProcessEnd, ScanManager,
    ScanMessage,
};
use swiftbeaverlodge::scan::{LogEntry, ScanState};
use swiftbeaverlodge::scan::progress::ScanProgress;

fn has(args: &[String], flag: &str) -> bool {
    args.iter().any(|a| a == flag)
}

#[test]
fn dedupe_and_skip_flags_follow_their_fields() {
    let mut c = ScanConfig { input_path: "/in.dd".to_string(), output_path: "/out".to_string(), ..Default::default() };
    c.dedupe = false;
    c.skip_duplicates = false;
    let args = build_cli_args(&c);
    assert!(!has(&args, "--dedupe"));
    assert!(!has(&args, "--skip-duplicates"));
    c.dedupe = true;
    let args = build_cli_args(&c);
    assert!(has(&args, "--dedupe"));
    assert!(!has(&args, "--skip-duplicates"));
    c.skip_duplicates = true;
    let args = build_cli_args(&c);
    assert!(has(&args, "--dedupe"));
    assert!(has(&args, "--skip-duplicates"));
}

#[test]
fn one_issue_per_broken_rule() {
    let c = ScanConfig {
        input_path: "/in.dd".to_string(),
        dry_run: true,
        metadata_only: true,
        remove_invalid: true,
        validate_carved: false,
        skip_duplicates: true,
        dedupe: false,
        hash_algorithms: vec!["md5".to_string(), "crc32".to_string(), "SHA256".to_string(), "blake3".to_string()],
        checkpoint_path: Some("/dev/sda".to_string()),
        ..Default::default()
    };
    // Three flag rules, two unsupported algorithms, one raw-device checkpoint.
    assert_eq!(flag_issues_for(&c, false).len(), 6);
    // The checkpoint naming the input is one issue, not two.
    assert_eq!(flag_issues_for(&c, true).len(), 6);
    let ok = ScanConfig { input_path: "/in.dd".to_string(), ..Default::default() };
    assert!(flag_issues_for(&ok, false).is_empty());
}

#[test]
fn rendered_versions_read_back() {
    for prefix in ["", "swiftbeaver ", "swiftbeaver v", "v"] {
        for suffix in ["", "-rc.1", "+build.7"] {
            let text = format!("{prefix}12.0.4294967295{suffix}");
            assert_eq!(parse_swiftbeaver_version(&text), Some((12, 0, 4294967295)), "{text}");
        }
        assert_eq!(parse_swiftbeaver_version(&format!("{prefix}3.14")), Some((3, 14, 0)));
        assert_eq!(parse_swiftbeaver_version(&format!("{prefix}3.14.1-beta build 9\n")), Some((3, 14, 1)));
    }
}

#[test]
fn poll_keeps_the_last_payload_of_each_kind() {
    let mut m = ScanManager::new();
    let config = ScanConfig { input_path: "/in.dd".to_string(), output_path: "/out".to_string(), ..Default::default() };
    m.begin_scan(&config);
    let mut first = ScanProgress::empty();
    first.hits = 1;
    let mut second = ScanProgress::empty();
    second.hits = 2;
    m.poll(vec![
        ScanMessage::Progress(first),
        ScanMessage::RunOutputPath { run_id: "a".to_string(), output_path: "/out/a".to_string() },
        ScanMessage::Error("first".to_string()),
        ScanMessage::Progress(second),
        ScanMessage::RunOutputPath { run_id: "b".to_string(), output_path: "/out/b".to_string() },
        ScanMessage::Error("second".to_string()),
        ScanMessage::Log(LogEntry { timestamp: "t".to_string(), level: "INFO".to_string(), message: "x".to_string() }),
    ]);
    assert_eq!(m.progress().unwrap().hits, 2);
    assert_eq!(m.run_output_path(), Some("/out/b"));
    assert_eq!(m.error(), Some("second"));
    assert_eq!(m.state(), ScanState::Running);
    let levels: Vec<&str> = m.logs().iter().map(|e| e.level.as_str()).collect();
    assert_eq!(levels, vec!["INFO", "ERROR", "ERROR", "INFO"]);
    m.poll(vec![ScanMessage::StateChange(ScanState::Completed), ScanMessage::Error("late".to_string())]);
    assert_eq!(m.state(), ScanState::Completed);
    assert!(!m.is_connected());
    m.poll(vec![ScanMessage::StateChange(ScanState::Running)]);
    assert_eq!(m.state(), ScanState::Completed);
    assert_eq!(m.error(), Some("late"));
}

fn state_changes(ms: &[ScanMessage]) -> Vec<(usize, ScanState)> {
    ms.iter()
        .enumerate()
        .filter_map(|(i, m)| match m {
            ScanMessage::StateChange(s) => Some((i, *s)),
            _ => None,
        })
        .collect()
}

#[test]
fn a_spawned_run_ends_once_with_its_last_message() {
    let mut all = vec![process_started(42)];
    for line in [
        r#"{"level":"progress","fields":{"bytes_scanned":1,"total_bytes":2,"hits":0,"files":0}}"#,
        "plain text",
        "",
        r#"{"level":"warn","fields":{"message":"careful"}}"#,
    ] {
        all.extend(dispatch_log_line(line, "INFO"));
    }
    all.extend(finish_messages(ProcessEnd::Exited { success: false, code: Some(2) }));
    let n = all.len();
    assert_eq!(state_changes(&all), vec![(n - 1, ScanState::Failed)]);

    let mut cut = vec![process_started(7)];
    cut.extend(capture_failed(false));
    assert_eq!(state_changes(&cut), vec![(2, ScanState::Failed)]);

    let done = finish_messages(ProcessEnd::Cancelled);
    assert_eq!(state_changes(&done), vec![(1, ScanState::Cancelled)]);
}

#[test]
fn get_gives_the_first_nonempty_field() {
    let r = MetadataRecord::new(vec![
        ("a".to_string(), "".to_string()),
        ("b".to_string(), "2".to_string()),
        ("c".to_string(), "3".to_string()),
    ]);
    assert_eq!(r.get(&["a", "c", "b"]), Some("3"));
    assert_eq!(r.get(&["missing", "a"]), None);
    assert_eq!(r.get(&[]), None);
}

#[test]
fn types_are_listed_in_order_of_first_appearance() {
    use_types_order();
}

fn file_of(file_type: &str) -> swiftbeaverlodge::metadata::types::CarvedFile {
    swiftbeaverlodge::metadata::reader::carved_file_from_csv_row(
        &vec![("file_type".to_string(), file_type.to_string()), ("size".to_string(), "1".to_string())],
        0,
    )
}

fn use_types_order() {
    let files = vec![file_of("png"), file_of("jpeg"), file_of("png"), file_of("gif"), file_of("jpeg")];
    let s = swiftbeaverlodge::metadata::types::MetadataSummary::from_results(&files, &[]).unwrap();
    let names: Vec<(&str, usize)> = s.by_type.iter().map(|(n, c)| (n.as_str(), *c)).collect();
    assert_eq!(names, vec![("png", 2), ("jpeg", 2), ("gif", 1)]);
    assert_eq!(s.total_bytes, 5);
}

#[test]
fn summaries_of_the_same_files_agree() {
    let files = vec![file_of("gif"), file_of("png"), file_of("gif")];
    let a = swiftbeaverlodge::metadata::types::MetadataSummary::from_results(&files, &[]).unwrap();
    let b = swiftbeaverlodge::metadata::types::MetadataSummary::from_results(&files, &[]).unwrap();
    assert_eq!(a.by_type, b.by_type);
    assert_eq!(a.by_type, vec![("gif".to_string(), 2), ("png".to_string(), 1)]);
}

#[test]
fn start_decision_refuses_in_order() {
    let mut c = ScanConfig { input_path: "/in.dd".to_string(), ..Default::default() };
    assert_eq!(start_decision(ScanState::Running, &c, false, false, false), Err("Scan already in progress".to_string()));
    assert_eq!(start_decision(ScanState::Idle, &c, false, false, false), Err("Input file does not exist: /in.dd".to_string()));
    // No checkpoint named: the resume answer does not count.
    assert_eq!(start_decision(ScanState::Idle, &c, false, true, false), Ok(()));
    c.resume_from = Some("/ck.json".to_string());
    assert_eq!(
        start_decision(ScanState::Completed, &c, false, true, false),
        Err("Resume checkpoint file does not exist: /ck.json".to_string())
    );
    assert_eq!(start_decision(ScanState::Completed, &c, false, true, true), Ok(()));
    c.resume_from = Some(String::new());
    assert_eq!(start_decision(ScanState::Failed, &c, false, true, false), Ok(()));
    c.dry_run = true;
    c.metadata_only = true;
    assert!(start_decision(ScanState::Idle, &c, false, false, false).unwrap_err().starts_with("Invalid scan configuration: "));
}

#[test]
fn engine_search_takes_the_first_existing_candidate() {
    let dirs = vec!["/x/bin".to_string(), "bin".to_string()];
    let names = vec!["sb.exe".to_string(), "sb".to_string()];
    let cands = dir_candidate_paths(&dirs, &names);
    assert_eq!(cands, vec!["/x/bin/sb.exe", "/x/bin/sb", "bin/sb.exe", "bin/sb"]);
    assert_eq!(first_present(&cands, &vec![false, false, true, true]), Some("bin/sb.exe".to_string()));
    assert_eq!(first_present(&cands, &vec![false, true, true, false]), Some("/x/bin/sb".to_string()));
    assert_eq!(first_present(&cands, &vec![false; 4]), None);
    assert_eq!(pick_binary(Some("a".to_string()), Some("b".to_string())), Some("a".to_string()));
    assert_eq!(pick_binary(None, Some("b".to_string())), Some("b".to_string()));
    assert_eq!(pick_binary(None, None), None);
}
