use swiftbeaverlodge::metadata::reader::{
    artefact_from_parquet_row, carved_file_from_parquet_row, ArtefactLine, ArtefactSource, CarvedLine,
    CarvedSource, JsonRow, JsonScalar, MetadataReader, ParquetArtefactRow, ParquetFileRow,
};
use swiftbeaverlodge::metadata::types::{CarvedFile, MetadataRecord, RunSummary, StringArtefact};

const RUN_ID: &str = "20260428T140203Z_09e96cdf";

fn st(v: &str) -> Option<String> {
    Some(v.to_string())
}

fn parquet_files() -> Vec<ParquetFileRow> {
    vec![
        ParquetFileRow {
            run_id: st(RUN_ID),
            handler_id: st("jpeg"),
            file_type: st("jpeg"),
            carved_path: st("jpeg/jpeg_000000000400.jpg"),
            extension: st("jpg"),
            global_start: Some(1024),
            global_end: Some(1056),
            size: Some(32),
            md5: st("md5-a"),
            sha256: st("sha-a"),
            validated: Some(false),
            truncated: Some(true),
            error: st("short footer"),
            pattern_id: st("jpeg_soi"),
            is_duplicate: Some(true),
            duplicate_of_offset: Some(512),
            mime_type: st("image/jpeg"),
            width: Some(16),
            height: Some(16),
        },
        ParquetFileRow {
            run_id: st(RUN_ID),
            handler_id: st("png"),
            file_type: st("png"),
            carved_path: st("png/png_000000000800.png"),
            extension: st("png"),
            global_start: Some(2048),
            global_end: Some(4096),
            size: Some(2048),
            md5: None,
            sha256: st("sha-b"),
            validated: Some(true),
            truncated: Some(false),
            error: None,
            pattern_id: st("png_sig"),
            is_duplicate: Some(false),
            duplicate_of_offset: None,
            mime_type: st("image/png"),
            width: Some(64),
            height: Some(32),
        },
    ]
}

fn parquet_strings() -> Vec<StringArtefact> {
    vec![
        artefact_from_parquet_row(ParquetArtefactRow {
            run_id: st(RUN_ID),
            artefact_kind: st("email"),
            content: st("case@example.test"),
            global_start: Some(20),
            global_end: Some(37),
            length: None,
            encoding: st("utf8"),
            source: st("chunk-1"),
        }),
        artefact_from_parquet_row(ParquetArtefactRow {
            run_id: st(RUN_ID),
            artefact_kind: st("url"),
            content: st("https://example.test/case"),
            global_start: Some(48),
            global_end: None,
            length: Some(25),
            encoding: st("utf8"),
            source: st("chunk-1"),
        }),
    ]
}

fn summary_record() -> MetadataRecord {
    let pairs = [
        ("run_id", RUN_ID),
        ("bytes_scanned", "2097152"),
        ("chunks_processed", "2"),
        ("hits", "18"),
        ("files_carved", "4"),
        ("rejected", "1"),
        ("prevalidation_rejected", "0"),
        ("overlap_skipped", "3"),
        ("string_spans", "2"),
        ("artefacts_extracted", "2"),
        ("duplicates_found", "1"),
        ("duplicates_skipped", "1"),
    ];
    MetadataRecord::new(pairs.iter().map(|(k, v)| (k.to_string(), v.to_string())).collect())
}

fn assert_v051_files(files: &[CarvedFile]) {
    assert_eq!(files.len(), 2);
    assert_eq!(files[0].id, 0);
    assert_eq!(files[0].run_id.as_deref(), Some(RUN_ID));
    assert_eq!(files[0].handler_id.as_deref(), Some("jpeg"));
    assert_eq!(files[0].file_type, "jpeg");
    assert_eq!(files[0].path, "jpeg/jpeg_000000000400.jpg");
    assert_eq!(files[0].extension.as_deref(), Some("jpg"));
    assert_eq!(files[0].global_start, 1024);
    assert_eq!(files[0].global_end, 1056);
    assert_eq!(files[0].size, 32);
    assert_eq!(files[0].md5.as_deref(), Some("md5-a"));
    assert_eq!(files[0].sha256.as_deref(), Some("sha-a"));
    assert_eq!(files[0].validated, Some(false));
    assert!(files[0].truncated);
    assert_eq!(files[0].errors, vec!["short footer"]);
    assert_eq!(files[0].pattern_id.as_deref(), Some("jpeg_soi"));
    assert!(files[0].is_duplicate);
    assert_eq!(files[0].duplicate_of_offset, Some(512));
    assert_eq!(files[0].mime_type.as_deref(), Some("image/jpeg"));
    assert_eq!(files[0].width, Some(16));
    assert_eq!(files[0].height, Some(16));

    assert_eq!(files[1].id, 1);
    assert_eq!(files[1].file_type, "png");
    assert_eq!(files[1].path, "png/png_000000000800.png");
    assert_eq!(files[1].validated, Some(true));
    assert!(!files[1].truncated);
    assert!(!files[1].is_duplicate);
    assert_eq!(files[1].duplicate_of_offset, None);
    assert_eq!(files[1].mime_type.as_deref(), Some("image/png"));
    assert_eq!(files[1].width, Some(64));
    assert_eq!(files[1].height, Some(32));
}

fn assert_v051_summary_and_strings(summary: &RunSummary, strings: &[StringArtefact]) {
    assert_eq!(summary.bytes_scanned, Some(2_097_152));
    assert_eq!(summary.chunks_processed, Some(2));
    assert_eq!(summary.hits, Some(18));
    assert_eq!(summary.files_carved, Some(4));
    assert_eq!(summary.duplicates_found, Some(1));
    assert_eq!(summary.duplicates_skipped, Some(1));

    assert_eq!(strings.len(), 2);
    assert_eq!(strings[0].artefact_kind, "email");
    assert_eq!(strings[0].content, "case@example.test");
    assert_eq!(strings[0].global_start, 20);
    assert_eq!(strings[0].global_end, Some(37));
    assert_eq!(strings[0].length, 17);
    assert_eq!(strings[0].encoding.as_deref(), Some("utf8"));
    assert_eq!(strings[0].source.as_deref(), Some("chunk-1"));
    assert_eq!(strings[1].artefact_kind, "url");
    assert_eq!(strings[1].content, "https://example.test/case");
    assert_eq!(strings[1].global_start, 48);
    assert_eq!(strings[1].length, 25);
}

#[test]
fn v051_parquet_metadata_fixture_reads_field_names_and_missing_optional_tables() {
    // A run with `parquet/files_0000.parquet`, `string_artefacts.parquet` and `run_summary.parquet`.
    let reader = MetadataReader::with_backend("/run", Some("parquet")).unwrap();
    assert_eq!(reader.backend(), "parquet");

    let files = reader.read_carved_files(CarvedSource::Parquet(vec![parquet_files()])).unwrap();
    assert_v051_files(&files);

    let strings = reader.read_string_artefacts(ArtefactSource::Parquet(parquet_strings())).unwrap();
    let summary = RunSummary::from_record(summary_record());
    assert_v051_summary_and_strings(&summary, &strings);
}

fn s(v: &str) -> JsonScalar {
    JsonScalar::Str(v.to_string())
}

fn n(v: u64) -> JsonScalar {
    JsonScalar::UInt(v)
}

fn object(fields: Vec<(&str, JsonScalar)>) -> JsonRow {
    JsonRow { fields: fields.into_iter().map(|(k, v)| (k.to_string(), v)).collect() }
}

#[test]
fn v051_jsonl_metadata_fixture_reads_field_names_and_missing_optional_tables() {
    let reader = MetadataReader::with_backend("/run", Some("jsonl")).unwrap();
    assert_eq!(reader.backend(), "jsonl");

    let carved = vec![
        CarvedLine::Current(object(vec![
            ("run_id", s(RUN_ID)),
            ("handler_id", s("jpeg")),
            ("file_type", s("jpeg")),
            ("carved_path", s("jpeg/jpeg_000000000400.jpg")),
            ("extension", s("jpg")),
            ("global_start", n(1024)),
            ("global_end", n(1056)),
            ("size", n(32)),
            ("md5", s("md5-a")),
            ("sha256", s("sha-a")),
            ("validated", JsonScalar::Bool(false)),
            ("truncated", JsonScalar::Bool(true)),
            ("error", s("short footer")),
            ("pattern_id", s("jpeg_soi")),
            ("is_duplicate", JsonScalar::Bool(true)),
            ("duplicate_of_offset", n(512)),
            ("mime_type", s("image/jpeg")),
            ("width", n(16)),
            ("height", n(16)),
        ])),
        CarvedLine::Current(object(vec![
            ("run_id", s(RUN_ID)),
            ("handler_id", s("png")),
            ("file_type", s("png")),
            ("carved_path", s("png/png_000000000800.png")),
            ("extension", s("png")),
            ("global_start", n(2048)),
            ("global_end", n(4096)),
            ("size", n(2048)),
            ("md5", JsonScalar::Other),
            ("sha256", s("sha-b")),
            ("validated", JsonScalar::Bool(true)),
            ("truncated", JsonScalar::Bool(false)),
            ("error", JsonScalar::Other),
            ("pattern_id", s("png_sig")),
            ("is_duplicate", JsonScalar::Bool(false)),
            ("duplicate_of_offset", JsonScalar::Other),
            ("mime_type", s("image/png")),
            ("width", n(64)),
            ("height", n(32)),
        ])),
    ];
    let files = reader.read_carved_files(CarvedSource::Jsonl(carved)).unwrap();
    assert_v051_files(&files);

    let lines = vec![
        ArtefactLine::Current(object(vec![
            ("run_id", s(RUN_ID)),
            ("artefact_kind", s("email")),
            ("content", s("case@example.test")),
            ("global_start", n(20)),
            ("global_end", n(37)),
            ("length", JsonScalar::Other),
            ("encoding", s("utf8")),
            ("source", s("chunk-1")),
        ])),
        ArtefactLine::Current(object(vec![
            ("run_id", s(RUN_ID)),
            ("artefact_kind", s("url")),
            ("content", s("https://example.test/case")),
            ("global_start", n(48)),
            ("global_end", JsonScalar::Other),
            ("length", n(25)),
            ("encoding", s("utf8")),
            ("source", s("chunk-1")),
        ])),
    ];
    let strings = reader.read_string_artefacts(ArtefactSource::Jsonl(lines)).unwrap();
    let summary = RunSummary::from_record(summary_record());
    assert_v051_summary_and_strings(&summary, &strings);
}

#[test]
fn v051_csv_metadata_fixture_reads_field_names_and_missing_optional_tables() {
    let reader = MetadataReader::with_backend("/run", Some("csv")).unwrap();
    assert_eq!(reader.backend(), "csv");

    let files_csv = "run_id,tool_version,config_hash,evidence_sha256,handler_id,file_type,carved_path,extension,global_start,global_end,size,md5,sha256,validated,truncated,error,pattern_id,is_duplicate,duplicate_of_offset,mime_type,width,height\n\
20260428T140203Z_09e96cdf,0.5.1,cfg-test,evidence-sha,jpeg,jpeg,jpeg/jpeg_000000000400.jpg,jpg,1024,1056,32,md5-a,sha-a,false,true,short footer,jpeg_soi,true,512,image/jpeg,16,16\n\
20260428T140203Z_09e96cdf,0.5.1,cfg-test,evidence-sha,png,png,png/png_000000000800.png,png,2048,4096,2048,,sha-b,true,false,,png_sig,false,,image/png,64,32\n";
    let files = reader.read_carved_files(CarvedSource::Csv(files_csv.to_string())).unwrap();
    assert_v051_files(&files);

    let strings_csv = "run_id,artefact_kind,content,global_start,global_end,length,encoding,source\n\
20260428T140203Z_09e96cdf,email,case@example.test,20,37,,utf8,chunk-1\n\
20260428T140203Z_09e96cdf,url,https://example.test/case,48,,25,utf8,chunk-1\n";
    let strings = reader.read_string_artefacts(ArtefactSource::Csv(Some(strings_csv.to_string()))).unwrap();
    let summary = RunSummary::from_record(summary_record());
    assert_v051_summary_and_strings(&summary, &strings);
}

#[test]
fn parquet_row_keeps_every_column() {
    let f = carved_file_from_parquet_row(parquet_files().remove(0), 7);
    assert_eq!(f.id, 7);
    assert_eq!(f.global_end, 1056);
    assert_eq!(f.md5.as_deref(), Some("md5-a"));
    assert_eq!(f.errors, vec!["short footer"]);
    assert_eq!(f.duplicate_of_offset, Some(512));
    // Out-of-range dimensions are dropped.
    let mut row = parquet_files().remove(1);
    row.width = Some(-1);
    row.height = Some(5_000_000_000);
    let g = carved_file_from_parquet_row(row, 0);
    assert_eq!(g.width, None);
    assert_eq!(g.height, None);
    assert!(g.errors.is_empty());
    assert_eq!(g.md5, None);
}

#[test]
fn csv_errors_column_gives_one_error() {
    let reader = MetadataReader::with_backend("/run", Some("csv")).unwrap();
    let text = "file_type,errors\njpeg,bad header\npng,\n";
    let files = reader.read_carved_files(CarvedSource::Csv(text.to_string())).unwrap();
    assert_eq!(files[0].errors, vec!["bad header"]);
    assert!(files[1].errors.is_empty());
}
