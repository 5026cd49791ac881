use std::collections::BTreeMap;

use swiftbeaverlodge::metadata::backend_for_presence;
use swiftbeaverlodge::metadata::csv::{csv_record_is_complete, csv_table, parse_csv_record};
use swiftbeaverlodge::metadata::reader::{
    artefact_from_parquet, carved_file_from_json, is_carved_file_shard, carved_files_from_csv, carved_files_from_jsonl,
    is_legacy_carved_row, normalize_artefact_type, parse_bool_value, string_artefacts_from_csv,
    string_artefacts_from_jsonl, ArtefactLine, ArtefactSource, CarvedLine, CarvedSource, JsonRow, JsonScalar,
    MetadataReader,
};
use swiftbeaverlodge::metadata::types::{
    CarvedFile, FileType, MetadataRecord, MetadataSummary, RunSummary, StringArtefact,
};

fn chars(s: &str) -> Vec<char> {
    s.chars().collect()
}

#[test]
fn test_file_type_from_extension() {
    assert_eq!(FileType::from_extension("jpeg"), FileType::Image);
    assert_eq!(FileType::from_extension("JPEG"), FileType::Image);
    assert_eq!(FileType::from_extension("pdf"), FileType::Document);
    assert_eq!(FileType::from_extension("zip"), FileType::Archive);
    assert_eq!(FileType::from_extension("sqlite"), FileType::Database);
    assert_eq!(FileType::from_extension("mp3"), FileType::Media);
    assert_eq!(FileType::from_extension("xyz"), FileType::Other);
}

#[test]
fn test_file_type_labels() {
    assert_eq!(FileType::Image.label(), "Images");
    assert_eq!(FileType::Document.label(), "Documents");
}

#[test]
fn test_run_summary_from_record() {
    let mut fields = BTreeMap::new();
    fields.insert("bytes_scanned".to_string(), "4096".to_string());
    fields.insert("chunks_processed".to_string(), "2".to_string());
    fields.insert("hits".to_string(), "3".to_string());
    fields.insert("files_carved".to_string(), "1".to_string());
    fields.insert("duplicates_skipped".to_string(), "4".to_string());

    let summary = RunSummary::from_record(MetadataRecord::new(fields.into_iter().collect()));

    assert_eq!(summary.bytes_scanned, Some(4096));
    assert_eq!(summary.chunks_processed, Some(2));
    assert_eq!(summary.hits, Some(3));
    assert_eq!(summary.files_carved, Some(1));
    assert_eq!(summary.duplicates_skipped, Some(4));
}

#[test]
fn record_keeps_last_value_and_key_order() {
    let r = MetadataRecord::new(vec![
        ("b".to_string(), "1".to_string()),
        ("a".to_string(), "".to_string()),
        ("b".to_string(), " 7 ".to_string()),
    ]);
    let keys: Vec<&str> = r.fields.iter().map(|(k, _)| k.as_str()).collect();
    assert_eq!(keys, vec!["a", "b"]);
    assert_eq!(r.get(&["b"]), Some(" 7 "));
    assert_eq!(r.get(&["a", "b"]), Some(" 7 "));
    assert_eq!(r.get(&["a"]), None);
    assert_eq!(r.get_u64(&["b"]), Some(7));
    assert_eq!(r.get(&["missing"]), None);
}

#[test]
fn run_summary_reads_aliases() {
    let r = MetadataRecord::new(vec![
        ("total_hits".to_string(), "9".to_string()),
        ("carved_files".to_string(), "x".to_string()),
        ("artifacts_extracted".to_string(), "+3".to_string()),
    ]);
    let s = RunSummary::from_record(r);
    assert_eq!(s.hits, Some(9));
    assert_eq!(s.files_carved, None);
    assert_eq!(s.artefacts_extracted, Some(3));
    assert_eq!(s.bytes_scanned, None);
    assert_eq!(s.fields.len(), 3);
}

#[test]
fn file_type_from_extension_unicode_case() {
    assert_eq!(FileType::from_extension("Mp4"), FileType::Media);
    assert_eq!(FileType::from_lowercase("PDF"), FileType::Other);
    assert_eq!(FileType::Media.label(), "Media");
}

fn file(file_type: &str, size: u64) -> CarvedFile {
    CarvedFile {
        id: 0,
        run_id: None,
        file_type: file_type.to_string(),
        path: String::new(),
        extension: None,
        global_start: 0,
        global_end: 0,
        size,
        handler_id: None,
        md5: None,
        sha256: None,
        validated: None,
        truncated: false,
        errors: Vec::new(),
        pattern_id: None,
        is_duplicate: false,
        duplicate_of_offset: None,
        mime_type: None,
        width: None,
        height: None,
    }
}

#[test]
fn summary_counts_types_and_bytes() {
    let files = vec![file("jpeg", 1000), file("jpeg", 2000), file("png", 500)];
    let s = MetadataSummary::from_results(&files, &[]).unwrap();
    assert_eq!(s.total_files, 3);
    assert_eq!(s.total_bytes, 3500);
    assert_eq!(s.count_of("jpeg"), Some(2));
    assert_eq!(s.count_of("png"), Some(1));
    assert_eq!(s.count_of("gif"), None);
    assert_eq!(s.string_artefacts, 0);
}

#[test]
fn summary_overflow_is_an_error() {
    let files = vec![file("a", u64::MAX), file("b", 1)];
    let e = MetadataSummary::from_results(&files, &[]).unwrap_err();
    assert_eq!(e, "Metadata summary total_bytes overflowed");
}

#[test]
fn csv_records_span_lines_inside_quotes() {
    assert!(csv_record_is_complete(&chars("a,\"b\"\"c\",d\n")));
    assert!(!csv_record_is_complete(&chars("a,\"b\n")));
    assert_eq!(parse_csv_record(&chars("a,\"b,c\",\"d\"\"e\"\n")).unwrap(), vec!["a", "b,c", "d\"e"]);
    assert_eq!(parse_csv_record(&chars("x,y\r\nz")).unwrap(), vec!["x", "y"]);
    assert_eq!(parse_csv_record(&chars("\"open")).unwrap_err(), "Unterminated quoted CSV field");
    let t = csv_table(&chars("h1,h2\n\"a\nb\",c\n,\n1,2")).unwrap();
    assert_eq!(t.header, vec!["h1", "h2"]);
    assert_eq!(t.rows, vec![vec!["a\nb".to_string(), "c".to_string()], vec!["1".to_string(), "2".to_string()]]);
    assert_eq!(csv_table(&chars("h\n1\n\"x")).err().unwrap(), "Failed to parse CSV metadata row 3: Unterminated quoted CSV field");
    assert_eq!(csv_table(&chars("\"h")).err().unwrap(), "Unterminated quoted CSV field");
    assert!(csv_table(&chars("")).unwrap().rows.is_empty());
}

#[test]
fn test_reader_csv_v067_schema() {
    let files = "run_id,file_type,path,extension,global_start,global_end,size,md5,sha256,validated,truncated,errors,pattern_id,is_duplicate,duplicate_of_offset,tool_version,config_hash,evidence_path,evidence_sha256\n\
r1,bek,carved/0001.bek,bek,64,192,128,,abc,true,false,,,false,,0.6.7,hash,/evidence/source.dd,\n";
    let files = carved_files_from_csv(files).unwrap();
    assert_eq!(files.len(), 1);
    assert_eq!(files[0].file_type, "bek");
    assert_eq!(files[0].global_start, 64);
    assert_eq!(files[0].global_end, 192);
    assert_eq!(files[0].size, 128);
    assert_eq!(files[0].path, "carved/0001.bek");
    assert_eq!(files[0].sha256.as_deref(), Some("abc"));
    assert_eq!(files[0].md5, None);
    assert_eq!(files[0].run_id.as_deref(), Some("r1"));
    assert_eq!(files[0].validated, Some(true));
    assert_eq!(files[0].id, 0);

    let strings = "run_id,artefact_kind,content,encoding,global_start,global_end,tool_version,config_hash,evidence_path,evidence_sha256\n\
r1,phone,+1 415 555 2671,ascii,10,24,0.6.7,hash,/evidence/source.dd,\n\
r1,bitlocker_recovery_password,\"000000-000000,000000-000000\",ascii,100,125,0.6.7,hash,/evidence/source.dd,\n";
    let artefacts = string_artefacts_from_csv(strings).unwrap();
    assert_eq!(artefacts.len(), 2);
    assert_eq!(artefacts[0].artefact_kind, "phone");
    assert_eq!(artefacts[0].content, "+1 415 555 2671");
    assert_eq!(artefacts[0].length, 14);
    assert_eq!(artefacts[0].encoding.as_deref(), Some("ascii"));
    assert_eq!(artefacts[1].artefact_kind, "bitlocker_recovery_password");
    assert_eq!(artefacts[1].content, "000000-000000,000000-000000");
}

#[test]
fn test_reader_csv_unknown_validated_value_is_not_valid() {
    let files = "run_id,file_type,path,global_start,global_end,size,validated\nr1,bek,carved/0001.bek,64,192,128,validated\n";
    let files = carved_files_from_csv(files).unwrap();
    assert_eq!(files.len(), 1);
    assert_eq!(files[0].validated, Some(false));
}

#[test]
fn csv_numbers_and_negative_zero() {
    let files = carved_files_from_csv("id,offset,global_end,width\n7,-0,-5,4294967296\n").unwrap();
    assert_eq!(files[0].id, 7);
    assert_eq!(files[0].global_start, 0);
    assert_eq!(files[0].global_end, 0);
    assert_eq!(files[0].size, 0);
    assert_eq!(files[0].width, None);
}

#[test]
fn bool_values() {
    assert!(parse_bool_value(" TRUE "));
    assert!(parse_bool_value("yes"));
    assert!(parse_bool_value("1"));
    assert!(!parse_bool_value("no"));
    assert!(!parse_bool_value("validated"));
}

#[test]
fn artefact_kinds_are_normalized() {
    assert_eq!(normalize_artefact_type("URL"), "url");
    assert_eq!(normalize_artefact_type("BitLockerRecoveryPassword"), "bitlocker_recovery_password");
    assert_eq!(normalize_artefact_type("GenericString"), "string");
    assert_eq!(normalize_artefact_type("Custom"), "Custom");
}

fn row(fields: Vec<(&str, JsonScalar)>) -> JsonRow {
    JsonRow { fields: fields.into_iter().map(|(k, v)| (k.to_string(), v)).collect() }
}

fn s(v: &str) -> JsonScalar {
    JsonScalar::Str(v.to_string())
}

#[test]
fn test_reader_jsonl_v067_carved_file_schema() {
    let r = row(vec![
        ("run_id", s("r1")),
        ("file_type", s("bek")),
        ("carved_path", s("carved/0001.bek")),
        ("global_start", JsonScalar::UInt(64)),
        ("global_end", JsonScalar::UInt(192)),
        ("sha256", s("abc")),
        ("validated", JsonScalar::Bool(true)),
    ]);
    assert!(!is_legacy_carved_row(&r));
    let f = carved_file_from_json(&r, 5);
    assert_eq!(f.id, 5);
    assert_eq!(f.file_type, "bek");
    assert_eq!(f.global_start, 64);
    assert_eq!(f.size, 128);
    assert_eq!(f.path, "carved/0001.bek");
    assert_eq!(f.sha256.as_deref(), Some("abc"));
    assert_eq!(f.validated, Some(true));
}

#[test]
fn jsonl_lines_number_files_and_report_bad_rows() {
    let legacy = file("jpeg", 10);
    let lines = vec![
        CarvedLine::Blank,
        CarvedLine::Legacy(Some(legacy)),
        CarvedLine::Current(row(vec![("global_start", JsonScalar::UInt(1)), ("file_type", s("png"))])),
    ];
    let files = carved_files_from_jsonl(lines).unwrap();
    assert_eq!(files.len(), 2);
    assert_eq!(files[0].id, 0);
    assert_eq!(files[0].file_type, "jpeg");
    assert_eq!(files[1].id, 1);
    assert_eq!(files[1].file_type, "png");
    let bad = vec![CarvedLine::Blank, CarvedLine::Blank, CarvedLine::Malformed];
    assert_eq!(carved_files_from_jsonl(bad).unwrap_err(), "Failed to parse carved-file metadata row 3");
}

#[test]
fn test_reader_jsonl_v067_string_artefacts_schema() {
    let lines = vec![
        ArtefactLine::Current(row(vec![
            ("run_id", s("r1")),
            ("artefact_kind", s("Phone")),
            ("content", s("+1 415 555 2671")),
            ("global_start", JsonScalar::UInt(10)),
            ("global_end", JsonScalar::UInt(24)),
            ("phone_e164", s("+14155552671")),
            ("phone_country", s("US")),
        ])),
        ArtefactLine::Current(row(vec![
            ("run_id", s("r1")),
            ("artefact_kind", s("BitlockerRecoveryPassword")),
            ("content", s("000000-000000-000000-000000-000000-000000-000000-000000")),
            ("global_start", JsonScalar::UInt(100)),
            ("global_end", JsonScalar::UInt(155)),
        ])),
    ];
    let a = string_artefacts_from_jsonl(lines).unwrap();
    assert_eq!(a.len(), 2);
    assert_eq!(a[0].artefact_kind, "phone");
    assert_eq!(a[0].content, "+14155552671");
    assert_eq!(a[0].global_start, 10);
    assert_eq!(a[0].length, 14);
    assert_eq!(a[1].artefact_kind, "bitlocker_recovery_password");
}

#[test]
fn parquet_artefacts_take_span_as_length() {
    let a: StringArtefact = artefact_from_parquet("url", Some("http://x".to_string()), Some(10), Some(4));
    assert_eq!(a.artefact_kind, "url");
    assert_eq!(a.length, 0);
    let b = artefact_from_parquet("email", None, Some(10), Some(30));
    assert_eq!(b.length, 20);
    assert_eq!(b.content, "");
}

#[test]
fn reader_refuses_other_backend_sources() {
    let reader = MetadataReader::with_backend("/run", Some("jsonl")).unwrap();
    assert_eq!(reader.backend(), "jsonl");
    let e = reader.read_carved_files(CarvedSource::Csv(String::new())).unwrap_err();
    assert_eq!(e, "Unknown metadata backend: jsonl");
    assert!(reader.read_carved_files(CarvedSource::Jsonl(Vec::new())).unwrap().is_empty());
    assert_eq!(MetadataReader::with_backend("/run", None).err().unwrap(), "No metadata found in run directory");
}

#[test]
fn backend_detection_order() {
    assert_eq!(backend_for_presence(true, true, true), Some("parquet"));
    assert_eq!(backend_for_presence(false, true, true), Some("jsonl"));
    assert_eq!(backend_for_presence(false, false, true), Some("csv"));
    assert_eq!(backend_for_presence(false, false, false), None);
}

#[test]
fn test_detect_parquet_backend() {
    // A run with only a `parquet/` directory.
    assert_eq!(backend_for_presence(true, false, false), Some("parquet"));
}

#[test]
fn test_detect_jsonl_backend() {
    // A run with only `metadata/carved_files.jsonl`.
    assert_eq!(backend_for_presence(false, true, false), Some("jsonl"));
}

#[test]
fn test_detect_no_backend() {
    assert_eq!(backend_for_presence(false, false, false), None);
}

#[test]
fn test_detect_csv_backend() {
    // A run with only `metadata/carved_files.csv`.
    assert_eq!(backend_for_presence(false, false, true), Some("csv"));
}

#[test]
fn test_reader_requires_metadata() {
    let result = MetadataReader::with_backend("/run", backend_for_presence(false, false, false));
    assert!(result.is_err());
    assert!(MetadataReader::new("/nonexistent/swiftbeaverlodge/run").is_err());
}

#[test]
fn test_reader_jsonl_empty() {
    let reader = MetadataReader::with_backend("/run", backend_for_presence(false, true, false)).unwrap();
    assert_eq!(reader.backend(), "jsonl");
    // An empty carved_files.jsonl has no lines.
    let files = reader.read_carved_files(CarvedSource::Jsonl(Vec::new())).unwrap();
    assert!(files.is_empty());
}

fn legacy(id: u64, file_type: &str, offset: u64, size: u64, output_path: &str) -> CarvedLine {
    let mut f = file(file_type, size);
    f.id = id;
    f.global_start = offset;
    f.global_end = offset + size;
    f.path = output_path.to_string();
    f.validated = Some(true);
    CarvedLine::Legacy(Some(f))
}

#[test]
fn test_reader_jsonl_with_data() {
    let reader = MetadataReader::with_backend("/run", Some("jsonl")).unwrap();
    let lines = vec![legacy(1, "jpeg", 1024, 4096, "out/1.jpg"), legacy(2, "png", 5120, 2048, "out/2.png")];
    let files = reader.read_carved_files(CarvedSource::Jsonl(lines)).unwrap();
    assert_eq!(files.len(), 2);
    assert_eq!(files[0].id, 1);
    assert_eq!(files[0].file_type, "jpeg");
    assert_eq!(files[1].id, 2);
    assert_eq!(files[1].file_type, "png");
}

#[test]
fn test_reader_summary() {
    let reader = MetadataReader::with_backend("/run", Some("jsonl")).unwrap();
    let lines = vec![
        legacy(1, "jpeg", 0, 1000, "1.jpg"),
        legacy(2, "jpeg", 1000, 2000, "2.jpg"),
        legacy(3, "png", 3000, 500, "3.png"),
    ];
    let files = reader.read_carved_files(CarvedSource::Jsonl(lines)).unwrap();
    let summary = reader.get_summary(&files, &[]).unwrap();
    assert_eq!(summary.total_files, 3);
    assert_eq!(summary.total_bytes, 3500);
    assert_eq!(summary.count_of("jpeg"), Some(2));
    assert_eq!(summary.count_of("png"), Some(1));
}

fn current_row(file_type: &str, path: &str, ext: &str, start: u64, end: u64, size: u64, sha: &str, pattern: &str) -> CarvedLine {
    CarvedLine::Current(row(vec![
        ("run_id", s("run-1")),
        ("file_type", s(file_type)),
        ("path", s(path)),
        ("extension", s(ext)),
        ("global_start", JsonScalar::UInt(start)),
        ("global_end", JsonScalar::UInt(end)),
        ("size", JsonScalar::UInt(size)),
        ("sha256", s(sha)),
        ("validated", JsonScalar::Bool(true)),
        ("truncated", JsonScalar::Bool(false)),
        ("errors", JsonScalar::Other),
        ("pattern_id", s(pattern)),
        ("is_duplicate", JsonScalar::Bool(false)),
        ("duplicate_of_offset", JsonScalar::Other),
    ]))
}

#[test]
fn test_metadata_reader_mock() {
    let reader = MetadataReader::with_backend("/run", backend_for_presence(false, true, false)).unwrap();
    let lines = vec![
        current_row("jpeg", "jpeg/jpeg_000000000400.jpg", "jpg", 1024, 5120, 4096, "sha-a", "jpeg_soi"),
        current_row("png", "png/png_000000001400.png", "png", 5120, 7168, 2048, "sha-b", "png_sig"),
        current_row("jpeg", "jpeg/jpeg_000000001C00.jpg", "jpg", 7168, 15360, 8192, "sha-c", "jpeg_soi"),
    ];
    let files = reader.read_carved_files(CarvedSource::Jsonl(lines)).unwrap();
    assert_eq!(files.len(), 3);
    // No string_artefacts.jsonl: no lines.
    let strings = reader.read_string_artefacts(ArtefactSource::Jsonl(Vec::new())).unwrap();
    let summary = MetadataSummary::from_results(&files, &strings).unwrap();
    assert_eq!(summary.total_files, 3);
    assert_eq!(summary.total_bytes, 4096 + 2048 + 8192);
    assert_eq!(summary.count_of("jpeg"), Some(2));
    assert_eq!(summary.count_of("png"), Some(1));
}

#[test]
fn v051_metadata_backend_detection_covers_parquet_jsonl_and_csv() {
    // The JSON Lines and CSV fixture runs hold only their own carved-file table.
    assert_eq!(backend_for_presence(false, true, false), Some("jsonl"));
    assert_eq!(backend_for_presence(false, false, true), Some("csv"));
    // A run with all three: Parquet wins.
    assert_eq!(backend_for_presence(true, true, true), Some("parquet"));
}

#[test]
fn carved_file_shards_are_named_files_parquet() {
    assert!(is_carved_file_shard("files_000.parquet"));
    assert!(!is_carved_file_shard("strings.parquet"));
    assert!(!is_carved_file_shard("files_000.json"));
    assert!(!is_carved_file_shard("files_"));
}

#[test]
fn overview_lists_types_by_count() {
    let files = vec![file("png", 1), file("jpeg", 1), file("jpeg", 1), file("gif", 1), file("jpeg", 1), file("png", 1)];
    let s = MetadataSummary::from_results(&files, &[]).unwrap();
    let ordered = s.types_by_count();
    assert_eq!(ordered[0], ("jpeg".to_string(), 3));
    assert_eq!(ordered[1], ("png".to_string(), 2));
    assert_eq!(ordered[2], ("gif".to_string(), 1));
}
