use swiftbeaverlodge::config::ScanConfig;
use swiftbeaverlodge::devices::{BlockDevice, DeviceType};
use swiftbeaverlodge::metadata::reader::MetadataReader;
use swiftbeaverlodge::metadata::types::{CarvedFile, StringArtefact};
use swiftbeaverlodge::ui::config_panel::{
    config_issues, ensure_dedupe_hashing, set_preset, sha256_hash_checkbox_locked, ConfigPanel,
};
use swiftbeaverlodge::ui::progress_panel::ProgressPanel;
use swiftbeaverlodge::ui::results_panel::{
    format_error_list, format_load_error, is_path_like_token, redact_path_like_values, truncate_chars,
    validation_status_label, LoadOutcome, ResultsPanel,
};
use swiftbeaverlodge::ui::Tab;
use swiftbeaverlodge::ui::config_panel::{select_all_file_types, set_file_type, set_hash_algorithm};
use swiftbeaverlodge::ui::run_mode::{
    apply_run_mode_rules, run_mode_note, set_dry_run, set_metadata_only, writes_carved_files,
};
use swiftbeaverlodge::scan::ScanState;

fn carved(file_type: &str, path: &str) -> CarvedFile {
    CarvedFile {
        id: 1,
        run_id: None,
        file_type: file_type.to_string(),
        path: path.to_string(),
        extension: Some("jpg".to_string()),
        global_start: 0,
        global_end: 100,
        size: 100,
        handler_id: None,
        md5: None,
        sha256: None,
        validated: Some(true),
        truncated: false,
        errors: Vec::new(),
        pattern_id: None,
        is_duplicate: false,
        duplicate_of_offset: None,
        mime_type: None,
        width: None,
        height: None,
    }
}

#[test]
fn test_results_panel_new() {
    let panel = ResultsPanel::new();
    assert!(panel.run_path.is_none());
    assert!(panel.files.is_empty());
    assert!(panel.strings.is_empty());
}

#[test]
fn test_results_panel_clear() {
    let mut panel = ResultsPanel::new();
    panel.files.push(carved("jpeg", "test.jpg"));
    panel.clear();
    assert!(panel.files.is_empty());
}

#[test]
fn test_truncate_chars_preserves_utf8_boundaries() {
    assert_eq!(truncate_chars("abcdef", 3), "abc...");
    assert_eq!(truncate_chars("åß∂ƒ©", 3), "åß∂...");
}

#[test]
fn test_format_error_list_redacts_path_like_values() {
    let errors = vec![
        "failed reading /cases/image.dd at C:\\case\\file.dd via \\\\srv\\share\\img.dd and cases/image.dd".to_string(),
    ];
    let formatted = format_error_list(&errors);

    assert!(formatted.contains("[path]"));
    assert!(!formatted.contains("/cases/image.dd"));
    assert!(!formatted.contains("C:\\case\\file.dd"));
    assert!(!formatted.contains("\\\\srv\\share\\img.dd"));
    assert!(!formatted.contains("cases/image.dd"));
}

#[test]
fn test_validation_status_label_distinguishes_missing_validation() {
    assert_eq!(validation_status_label(Some(true)), "Passed");
    assert_eq!(validation_status_label(Some(false)), "Failed");
    assert_eq!(validation_status_label(None), "Not run");
}

#[test]
fn redaction_keeps_punctuation_and_joins_tokens() {
    assert_eq!(redact_path_like_values("see (/tmp/x), then   done"), "see ([path]), then done");
    assert_eq!(redact_path_like_values("plain words"), "plain words");
    assert!(is_path_like_token("a\\b"));
    assert!(!is_path_like_token("C:"));
    assert_eq!(truncate_chars("abc", 3), "abc");
    assert_eq!(format_load_error("Failed to load files"), "Failed to load files. See application logs for details.");
}

#[test]
fn load_outcomes() {
    let mut panel = ResultsPanel::new();
    panel.load("/run", LoadOutcome::OpenFailed);
    assert_eq!(panel.run_path.as_deref(), Some("/run"));
    assert_eq!(panel.error.as_deref(), Some("Failed to open results. See application logs for details."));
    assert!(panel.reader.is_none());

    let reader = MetadataReader::with_backend("/run", Some("csv")).unwrap();
    panel.load(
        "/run",
        LoadOutcome::Opened {
            reader,
            files: Ok(vec![carved("jpeg", "A.jpg"), carved("png", "b.png")]),
            strings: Err("bad".to_string()),
        },
    );
    assert!(panel.reader.is_some());
    assert_eq!(panel.files.len(), 2);
    assert_eq!(panel.summary.as_ref().unwrap().total_bytes, 200);
    assert_eq!(panel.error.as_deref(), Some("Failed to load string artefacts. See application logs for details."));

    panel.search_query = "a.J".to_string();
    assert_eq!(panel.filtered_files(), vec![0]);
    panel.search_query.clear();
    panel.type_filter = Some("png".to_string());
    assert_eq!(panel.filtered_files(), vec![1]);

    panel.strings = vec![StringArtefact {
        artefact_kind: "url".to_string(),
        content: "HTTP://Example".to_string(),
        global_start: 0,
        global_end: None,
        length: 0,
        encoding: None,
        source: None,
        run_id: None,
    }];
    panel.search_query = "example".to_string();
    assert_eq!(panel.filtered_strings(), vec![0]);
    panel.search_query = "nothing".to_string();
    assert!(panel.filtered_strings().is_empty());
}

#[test]
fn ensure_dedupe_hashing_adds_sha256_for_explicit_hash_selection() {
    let mut config = ScanConfig { dedupe: true, hash_algorithms: vec!["md5".to_string()], ..Default::default() };
    ensure_dedupe_hashing(&mut config);
    assert!(config.hash_algorithms.iter().any(|algo| algo.eq_ignore_ascii_case("sha256")));
}

#[test]
fn ensure_dedupe_hashing_leaves_default_hash_selection_unset() {
    let mut config = ScanConfig { dedupe: true, hash_algorithms: Vec::new(), ..Default::default() };
    ensure_dedupe_hashing(&mut config);
    assert!(config.hash_algorithms.is_empty());
}

#[test]
fn ensure_dedupe_hashing_is_idempotent_when_sha256_already_selected() {
    let mut config = ScanConfig {
        dedupe: true,
        hash_algorithms: vec!["md5".to_string(), "sha256".to_string()],
        ..Default::default()
    };
    ensure_dedupe_hashing(&mut config);
    assert_eq!(config.hash_algorithms.iter().filter(|algo| algo.eq_ignore_ascii_case("sha256")).count(), 1);
}

#[test]
fn sha256_hash_checkbox_lock_allows_return_to_default_hashes() {
    let only_sha256 = ScanConfig { dedupe: true, hash_algorithms: vec!["sha256".to_string()], ..Default::default() };
    assert!(!sha256_hash_checkbox_locked(&only_sha256, "sha256"));
    let md5_and_sha256 = ScanConfig {
        dedupe: true,
        hash_algorithms: vec!["md5".to_string(), "sha256".to_string()],
        ..Default::default()
    };
    assert!(sha256_hash_checkbox_locked(&md5_and_sha256, "sha256"));
    assert!(!sha256_hash_checkbox_locked(&md5_and_sha256, "md5"));
}

#[test]
fn presets_replace_file_types() {
    let mut config = ScanConfig::default();
    set_preset(&mut config, "Databases");
    assert_eq!(config.file_types, vec!["sqlite", "sqlite_wal", "sqlite_page"]);
    set_preset(&mut config, "No such category");
    assert_eq!(config.file_types, vec!["sqlite", "sqlite_wal", "sqlite_page"]);
}

#[test]
fn test_validate_empty_config() {
    let config = ScanConfig {
        input_path: String::new(),
        output_path: String::new(),
        file_types: Vec::new(),
        ..Default::default()
    };
    let issues = swiftbeaverlodge::ui::config_panel::validate_config(&config);
    assert!(issues.len() >= 3);
}

#[test]
fn config_issues_in_order() {
    let mut config = ScanConfig::default();
    config.input_path = "/in".to_string();
    config.resume_from = Some("/ckpt".to_string());
    let issues = config_issues(&config, false, false, true);
    assert_eq!(
        issues,
        vec![
            "Input file does not exist".to_string(),
            "Output directory is required".to_string(),
            "Resume checkpoint file does not exist".to_string(),
        ]
    );
}

fn dev(name: &str, t: DeviceType) -> BlockDevice {
    BlockDevice {
        path: format!("/dev/{name}"),
        name: name.to_string(),
        size: 1,
        size_display: "1 B".to_string(),
        model: None,
        removable: false,
        device_type: t,
    }
}

#[test]
fn config_panel_filters_partitions() {
    let mut panel = ConfigPanel::new();
    panel.refresh_devices(vec![dev("sda", DeviceType::Disk), dev("sda1", DeviceType::Partition)]);
    let names: Vec<&str> = panel.get_filtered_devices().iter().map(|d| d.name.as_str()).collect();
    assert_eq!(names, vec!["sda"]);
    panel.show_partitions = true;
    assert_eq!(panel.get_filtered_devices().len(), 2);
}

#[test]
fn labels() {
    assert_eq!(Tab::Configure.label(), "⚙ Configure");
    assert_eq!(Tab::default(), Tab::Configure);
    assert_eq!(ProgressPanel::status_label(ScanState::Cancelled), "Cancelled");
    let _ = ProgressPanel::new();
}

#[test]
fn test_validate_valid_config() {
    let config = ScanConfig {
        input_path: "/tmp".to_string(),
        output_path: "/tmp/output".to_string(),
        file_types: vec!["jpeg".to_string()],
        ..Default::default()
    };
    let issues = swiftbeaverlodge::ui::config_panel::validate_config(&config);
    assert!(issues.is_empty() || issues.len() == 1);
}

#[test]
fn test_eta_formatted() {
    let progress = swiftbeaverlodge::scan::progress::ScanProgress { eta_secs: Some(3661), ..Default::default() };
    assert_eq!(progress.eta_formatted(), "1h 1m");
}

#[test]
fn test_eta_formatted_none() {
    let progress = swiftbeaverlodge::scan::progress::ScanProgress { eta_secs: None, ..Default::default() };
    assert_eq!(progress.eta_formatted(), "calculating...");
}

#[test]
fn run_mode_toggles_are_exclusive_and_rules_clear_dependents() {
    let mut c = ScanConfig { metadata_only: true, ..Default::default() };
    set_dry_run(&mut c, true);
    assert!(c.dry_run && !c.metadata_only);
    assert!(!writes_carved_files(&c));
    assert!(run_mode_note(&c).starts_with("Dry run"));
    let mut c = ScanConfig { dry_run: true, validate_carved: true, remove_invalid: true, ..Default::default() };
    set_metadata_only(&mut c, true);
    assert!(c.metadata_only && !c.dry_run && !c.validate_carved && !c.remove_invalid);
    let mut c = ScanConfig { validate_carved: false, remove_invalid: true, dedupe: false, skip_duplicates: true, ..Default::default() };
    apply_run_mode_rules(&mut c);
    assert!(!c.remove_invalid && !c.skip_duplicates);
    let mut c = ScanConfig { dry_run: true, validate_carved: true, dedupe: true, skip_duplicates: true, ..Default::default() };
    apply_run_mode_rules(&mut c);
    assert!(!c.validate_carved && !c.skip_duplicates && c.dedupe);
    let mut c = ScanConfig { validate_carved: true, remove_invalid: true, dedupe: true, skip_duplicates: true, ..Default::default() };
    apply_run_mode_rules(&mut c);
    assert!(c.validate_carved && c.remove_invalid && c.skip_duplicates);
}

#[test]
fn toggling_hashes_and_types() {
    let mut c = ScanConfig { dedupe: true, hash_algorithms: vec!["MD5".to_string(), "sha256".to_string()], ..Default::default() };
    set_hash_algorithm(&mut c, "sha256", false);
    assert_eq!(c.hash_algorithms, vec!["MD5".to_string(), "sha256".to_string()]);
    set_hash_algorithm(&mut c, "md5", false);
    assert_eq!(c.hash_algorithms, vec!["sha256".to_string()]);
    let mut c = ScanConfig::default();
    set_hash_algorithm(&mut c, "md5", true);
    assert_eq!(c.hash_algorithms, vec!["md5".to_string()]);
    let mut c = ScanConfig { file_types: vec!["png".to_string(), "jpeg".to_string(), "png".to_string()], ..Default::default() };
    set_file_type(&mut c, "jpeg", true);
    assert_eq!(c.file_types.len(), 3);
    set_file_type(&mut c, "gif", true);
    assert_eq!(c.file_types.last().map(String::as_str), Some("gif"));
    set_file_type(&mut c, "png", false);
    assert_eq!(c.file_types, vec!["jpeg".to_string(), "gif".to_string()]);
    select_all_file_types(&mut c);
    assert!(c.file_types.len() > 40);
    assert_eq!(c.file_types.first().map(String::as_str), Some("jpeg"));
}

#[test]
fn start_action_names_resume() {
    use_label_checks();
}

fn use_label_checks() {
    let c = ScanConfig::default();
    assert_eq!(swiftbeaverlodge::ui::start_button_label(&c), "▶ Start Scan");
    assert!(!swiftbeaverlodge::ui::resume_active(&c));
    let c = ScanConfig { resume_from: Some(String::new()), ..Default::default() };
    assert_eq!(swiftbeaverlodge::ui::start_button_label(&c), "▶ Start Scan");
    let c = ScanConfig { resume_from: Some("/var/tmp/run.ckpt".to_string()), ..Default::default() };
    assert_eq!(swiftbeaverlodge::ui::start_button_label(&c), "▶ Resume Scan");
    assert!(swiftbeaverlodge::ui::resume_active(&c));
}

#[test]
fn type_choices_are_unique_and_sorted() {
    let mut panel = ResultsPanel::new();
    panel.files = vec![carved("png", "a"), carved("jpeg", "b"), carved("png", "c"), carved("bmp", "d")];
    assert_eq!(panel.file_type_choices(), vec!["bmp".to_string(), "jpeg".to_string(), "png".to_string()]);
}
