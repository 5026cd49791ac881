use swiftbeaverlodge::config::{
    file_type_catalog, hash_algorithms_include_sha256, is_raw_device_path, validate_flag_combinations,
    zip_derived_types, MetadataBackend, ScanConfig,
};

fn all_catalog_types() -> Vec<&'static str> {
    file_type_catalog().into_iter().flat_map(|c| c.types.into_iter()).collect()
}

#[test]
fn test_metadata_backend_str() {
    assert_eq!(MetadataBackend::Parquet.as_str(), "parquet");
    assert_eq!(MetadataBackend::Jsonl.as_str(), "jsonl");
    assert_eq!(MetadataBackend::Csv.as_str(), "csv");
}

#[test]
fn file_types_catalog_entries_are_unique_and_non_empty() {
    let mut seen = std::collections::HashSet::new();
    for cat in file_type_catalog() {
        let category = cat.name;
        assert!(!category.is_empty(), "category name must not be empty");
        assert!(!cat.types.is_empty(), "category {category} must list at least one type");
        for t in cat.types {
            assert!(!t.is_empty(), "file type id must not be empty");
            assert!(seen.insert(t), "file type {t} appears in more than one category");
        }
    }
}

#[test]
fn zip_derived_types_are_in_catalog() {
    let catalog = all_catalog_types();
    for t in zip_derived_types() {
        assert!(catalog.contains(&t), "ZIP-derived type {t} must be present in FILE_TYPES catalog");
    }
}

#[test]
fn file_types_catalog_covers_v0_6_7_carvers() {
    let catalog = all_catalog_types();
    let required = [
        "jpeg", "png", "gif", "webp", "bmp", "tiff", "heic", "ico", "pdf", "doc", "docx", "xls",
        "xlsx", "ppt", "pptx", "odt", "ods", "odp", "rtf", "eml", "epub", "mobi", "fb2", "lrf",
        "zip", "rar", "7z", "tar", "gzip", "bzip2", "xz", "sqlite", "sqlite_wal", "sqlite_page",
        "mp4", "mov", "avi", "webm", "wmv", "mp3", "wav", "ogg", "lnk", "prefetch", "registry",
        "evtx", "bek", "elf",
    ];
    for t in required {
        assert!(catalog.contains(&t), "FILE_TYPES catalog missing required v0.6.7 carver {t}");
    }
}

#[test]
fn default_config_has_expected_values() {
    let config = ScanConfig::default();
    assert!(config.compute_evidence_hash);
    assert_eq!(config.metadata_backend, MetadataBackend::Parquet);
    assert!(!config.file_types.is_empty());
    assert_eq!(config.string_min_len, 8);
    assert_eq!(config.entropy_threshold_milli, 7500);
}

#[test]
fn default_config_has_no_flag_issues() {
    let config = ScanConfig::default();
    assert!(validate_flag_combinations(&config).is_empty());
}

#[test]
fn sha256_detection_ignores_ascii_case() {
    assert!(hash_algorithms_include_sha256(&vec!["md5".to_string(), "SHA256".to_string()]));
    assert!(!hash_algorithms_include_sha256(&vec!["md5".to_string()]));
    assert!(!hash_algorithms_include_sha256(&Vec::new()));
}

#[test]
fn raw_device_paths_are_under_dev() {
    assert!(is_raw_device_path("/dev/sda"));
    assert!(!is_raw_device_path("/home/user/disk.dd"));
}

#[test]
fn test_default_config() {
    let config = ScanConfig::default();
    assert!(config.scan_strings);
    assert!(config.compute_evidence_hash);
    assert_eq!(config.metadata_backend, MetadataBackend::Parquet);
    assert!(!config.file_types.is_empty());
}

#[test]
fn default_file_types_are_in_catalog() {
    let catalog = all_catalog_types();
    for t in &ScanConfig::default().file_types {
        assert!(catalog.contains(&t.as_str()), "default file type {t} missing from FILE_TYPES catalog");
    }
}

#[test]
fn v051_file_type_catalog_includes_accepted_type_id_fixture() {
    let mut catalog: Vec<String> = all_catalog_types().into_iter().map(|t| t.to_string()).collect();
    catalog.sort();
    assert!(catalog.contains(&"bek".to_string()));
}

#[test]
fn default_config_raises_no_flag_issue() {
    assert!(validate_flag_combinations(&ScanConfig::default()).is_empty());
}
