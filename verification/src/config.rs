//! Scan configuration: the options Lodge passes to SwiftBeaver, the file-type
//! catalog, and cross-field validation of flag combinations.

use vstd::prelude::*;

use crate::text::{
    append_str, ascii_lower_seq, chars_of, eq_ignore_ascii_case, eq_str, has_prefix,
    starts_with_str, string_of, string_of_str, string_views, to_ascii_lower,
};

verus! {

/// Metadata output format.
#[derive(Debug, Clone, Copy, PartialEq, Eq, Structural)]
pub enum MetadataBackend {
    Parquet,
    Jsonl,
    Csv,
}

pub open spec fn backend_name(b: MetadataBackend) -> Seq<char> {
    match b {
        MetadataBackend::Parquet => "parquet"@,
        MetadataBackend::Jsonl => "jsonl"@,
        MetadataBackend::Csv => "csv"@,
    }
}

impl MetadataBackend {
    pub fn as_str(&self) -> (r: &'static str)
        ensures
            r@ == backend_name(*self),
    {
        match self {
            MetadataBackend::Parquet => "parquet",
            MetadataBackend::Jsonl => "jsonl",
            MetadataBackend::Csv => "csv",
        }
    }
}

/// Scan configuration.
///
/// The entropy threshold is held in thousandths (`7500` is 7.5 bits per byte).
#[derive(Debug, Clone)]
pub struct ScanConfig {
    // Input/Output
    pub input_path: String,
    pub output_path: String,
    pub compute_evidence_hash: bool,
    pub evidence_sha256: Option<String>,
    /// Optional SwiftBeaver YAML config file (`--config-path`).
    pub config_path: Option<String>,
    // File types to carve
    pub file_types: Vec<String>,
    pub disable_zip: bool,
    // String scanning options
    pub scan_strings: bool,
    pub scan_urls: bool,
    pub scan_emails: bool,
    pub scan_phones: bool,
    pub scan_bitlocker_recovery: bool,
    pub scan_utf16: bool,
    pub string_min_len: usize,
    // GPU acceleration
    pub gpu_enabled: bool,
    // Entropy detection
    pub scan_entropy: bool,
    pub entropy_threshold_milli: u64,
    /// Optional override for entropy window size in bytes (`--entropy-window-bytes`).
    pub entropy_window_bytes: Option<u64>,
    // SQLite recovery
    pub scan_sqlite_pages: bool,
    // Resource limits
    pub max_bytes: Option<u64>,
    pub max_files: Option<u64>,
    pub max_memory_mib: Option<u64>,
    /// Stop after scanning this many chunks (`--max-chunks`).
    pub max_chunks: Option<u64>,
    /// Limit maximum open file descriptors (`--max-open-files`, Unix only).
    pub max_open_files: Option<u64>,
    // Output settings
    pub metadata_backend: MetadataBackend,
    pub workers: usize,
    /// Scan worker count (`--scan-workers`); 0 inherits `--workers`.
    pub scan_workers: usize,
    /// Carve worker count (`--carve-workers`); 0 inherits `--workers`.
    pub carve_workers: usize,
    /// Dedicated I/O writer thread count (`--write-workers`); 0 leaves it unset.
    pub write_workers: usize,
    pub chunk_size_mib: u64,
    /// Chunk overlap in KiB (`--overlap-kib`).
    pub overlap_kib: Option<u64>,
    // Run modes
    /// `--dry-run`: scan and count but don't write files.
    pub dry_run: bool,
    /// `--metadata-only`: record metadata but don't write carved files.
    pub metadata_only: bool,
    // Post-carving validation
    /// `--validate-carved`: validate carved files after extraction.
    pub validate_carved: bool,
    /// `--remove-invalid`: delete files that fail validation.
    pub remove_invalid: bool,
    // Hashing & dedup
    /// `--hash-algorithms`, e.g. `["md5", "sha256"]`; empty leaves SwiftBeaver's default.
    pub hash_algorithms: Vec<String>,
    /// `--dedupe`: track duplicates in metadata.
    pub dedupe: bool,
    /// `--skip-duplicates`: don't write duplicate files.
    pub skip_duplicates: bool,
    // Checkpoint / resume
    /// `--checkpoint-path`: write checkpoint state to this path on early exit.
    pub checkpoint_path: Option<String>,
    /// `--resume-from`: resume scanning from a previously written checkpoint.
    pub resume_from: Option<String>,
}

pub const DEFAULT_STRING_MIN_LEN: usize = 8;

pub const DEFAULT_ENTROPY_THRESHOLD_MILLI: u64 = 7500;

pub open spec fn default_file_types() -> Seq<Seq<char>> {
    seq![
        "jpeg"@,
        "png"@,
        "gif"@,
        "webp"@,
        "bmp"@,
        "tiff"@,
        "pdf"@,
        "zip"@,
        "sqlite"@,
        "docx"@,
        "xlsx"@,
        "pptx"@,
        "mp4"@,
    ]
}

/// The defaults: evidence hashing and string scanning on, the common file types,
/// Parquet metadata, and every optional override unset.
pub open spec fn is_default_config(c: ScanConfig) -> bool {
    &&& c.input_path@.len() == 0
    &&& c.output_path@.len() == 0
    &&& c.compute_evidence_hash
    &&& c.evidence_sha256 is None
    &&& c.config_path is None
    &&& string_views(c.file_types@) == default_file_types()
    &&& !c.disable_zip
    &&& c.scan_strings && c.scan_urls && c.scan_emails && c.scan_phones
    &&& c.scan_bitlocker_recovery
    &&& !c.scan_utf16
    &&& c.string_min_len == 8
    &&& !c.gpu_enabled
    &&& !c.scan_entropy
    &&& c.entropy_threshold_milli == 7500
    &&& c.entropy_window_bytes is None
    &&& !c.scan_sqlite_pages
    &&& c.max_bytes is None && c.max_files is None && c.max_memory_mib is None
    &&& c.max_chunks is None && c.max_open_files is None
    &&& c.metadata_backend == MetadataBackend::Parquet
    &&& c.workers == 0 && c.scan_workers == 0 && c.carve_workers == 0 && c.write_workers == 0
    &&& c.chunk_size_mib == 64
    &&& c.overlap_kib is None
    &&& !c.dry_run && !c.metadata_only && !c.validate_carved && !c.remove_invalid
    &&& c.hash_algorithms@.len() == 0
    &&& !c.dedupe && !c.skip_duplicates
    &&& c.checkpoint_path is None && c.resume_from is None
}

fn strings_of(items: &[&str]) -> (r: Vec<String>)
    ensures
        string_views(r@) == items@.map_values(|s: &str| s@),
{
    let mut r: Vec<String> = Vec::new();
    let mut i: usize = 0;
    while i < items.len()
        invariant
            i <= items@.len(),
            string_views(r@) == items@.subrange(0, i as int).map_values(|s: &str| s@),
        decreases items@.len() - i,
    {
        let s = string_of_str(items[i]);
        let ghost prev = r@;
        r.push(s);
        assert(string_views(r@) =~= string_views(prev).push(s@));
        assert(items@.subrange(0, i + 1).map_values(|s: &str| s@) =~= items@.subrange(
            0,
            i as int,
        ).map_values(|s: &str| s@).push(items@[i as int]@));
        i = i + 1;
    }
    assert(items@.subrange(0, items@.len() as int) =~= items@);
    r
}

impl Default for ScanConfig {
    fn default() -> (r: Self)
        ensures
            is_default_config(r),
    {
        let items = [
            "jpeg",
            "png",
            "gif",
            "webp",
            "bmp",
            "tiff",
            "pdf",
            "zip",
            "sqlite",
            "docx",
            "xlsx",
            "pptx",
            "mp4",
        ];
        let file_types = strings_of(&items);
        proof {
            assert(items@.map_values(|s: &str| s@) =~= default_file_types());
        }
        ScanConfig {
            input_path: String::new(),
            output_path: String::new(),
            compute_evidence_hash: true,
            evidence_sha256: None,
            config_path: None,
            file_types,
            disable_zip: false,
            scan_strings: true,
            scan_urls: true,
            scan_emails: true,
            scan_phones: true,
            scan_bitlocker_recovery: true,
            scan_utf16: false,
            string_min_len: DEFAULT_STRING_MIN_LEN,
            gpu_enabled: false,
            scan_entropy: false,
            entropy_threshold_milli: DEFAULT_ENTROPY_THRESHOLD_MILLI,
            entropy_window_bytes: None,
            scan_sqlite_pages: false,
            max_bytes: None,
            max_files: None,
            max_memory_mib: None,
            max_chunks: None,
            max_open_files: None,
            metadata_backend: MetadataBackend::Parquet,
            workers: 0,
            scan_workers: 0,
            carve_workers: 0,
            write_workers: 0,
            chunk_size_mib: 64,
            overlap_kib: None,
            dry_run: false,
            metadata_only: false,
            validate_carved: false,
            remove_invalid: false,
            hash_algorithms: Vec::new(),
            dedupe: false,
            skip_duplicates: false,
            checkpoint_path: None,
            resume_from: None,
        }
    }
}

/// Default for options that older configurations did not record.
pub fn default_true() -> (r: bool)
    ensures
        r,
{
    true
}


// ---------------------------------------------------------------------------
// Catalogs
// ---------------------------------------------------------------------------

/// A group of SwiftBeaver `--types` identifiers shown together in the UI.
#[derive(Debug, Clone)]
pub struct FileTypeCategory {
    pub name: &'static str,
    pub icon: &'static str,
    pub types: Vec<&'static str>,
}

pub open spec fn str_views(v: Seq<&'static str>) -> Seq<Seq<char>> {
    v.map_values(|s: &str| s@)
}

/// `(category, types)` of the catalog, in display order. The identifiers are
/// exactly those accepted by SwiftBeaver v0.6.7's `--types` flag.
pub open spec fn catalog_spec() -> Seq<(Seq<char>, Seq<Seq<char>>)> {
    seq![
        ("Images"@, seq!["jpeg"@, "png"@, "gif"@, "webp"@, "bmp"@, "tiff"@, "heic"@, "ico"@]),
        (
            "Documents"@,
            seq![
                "pdf"@,
                "doc"@,
                "docx"@,
                "xls"@,
                "xlsx"@,
                "ppt"@,
                "pptx"@,
                "odt"@,
                "ods"@,
                "odp"@,
                "rtf"@,
                "eml"@,
            ],
        ),
        ("eBooks"@, seq!["epub"@, "mobi"@, "fb2"@, "lrf"@]),
        ("Archives"@, seq!["zip"@, "rar"@, "7z"@, "tar"@, "gzip"@, "bzip2"@, "xz"@]),
        ("Databases"@, seq!["sqlite"@, "sqlite_wal"@, "sqlite_page"@]),
        ("Media"@, seq!["mp4"@, "mov"@, "avi"@, "webm"@, "wmv"@, "mp3"@, "wav"@, "ogg"@]),
        ("Windows Artefacts"@, seq!["lnk"@, "prefetch"@, "registry"@, "evtx"@, "bek"@]),
        ("Executables"@, seq!["elf"@]),
    ]
}

fn category(name: &'static str, icon: &'static str, types: &[&'static str]) -> (r: FileTypeCategory)
    ensures
        r.name == name,
        r.icon == icon,
        r.types@ == types@,
{
    let mut v: Vec<&'static str> = Vec::new();
    let mut i: usize = 0;
    while i < types.len()
        invariant
            i <= types@.len(),
            v@ == types@.subrange(0, i as int),
        decreases types@.len() - i,
    {
        v.push(types[i]);
        i = i + 1;
        assert(v@ =~= types@.subrange(0, i as int));
    }
    assert(types@.subrange(0, types@.len() as int) =~= types@);
    FileTypeCategory { name, icon, types: v }
}

/// Available file types for carving, grouped by category for the UI.
pub fn file_type_catalog() -> (r: Vec<FileTypeCategory>)
    ensures
        r@.len() == catalog_spec().len(),
        forall|i: int|
            0 <= i < r@.len() ==> (#[trigger] r@[i]).name@ == catalog_spec()[i].0 && str_views(
                r@[i].types@,
            ) == catalog_spec()[i].1,
{
    let mut r: Vec<FileTypeCategory> = Vec::new();
    let a = ["jpeg", "png", "gif", "webp", "bmp", "tiff", "heic", "ico"];
    r.push(category("Images", "\u{1f5bc}", &a));
    let b = [
        "pdf",
        "doc",
        "docx",
        "xls",
        "xlsx",
        "ppt",
        "pptx",
        "odt",
        "ods",
        "odp",
        "rtf",
        "eml",
    ];
    r.push(category("Documents", "\u{1f4c4}", &b));
    let c = ["epub", "mobi", "fb2", "lrf"];
    r.push(category("eBooks", "\u{1f4da}", &c));
    let d = ["zip", "rar", "7z", "tar", "gzip", "bzip2", "xz"];
    r.push(category("Archives", "\u{1f4e6}", &d));
    let e = ["sqlite", "sqlite_wal", "sqlite_page"];
    r.push(category("Databases", "\u{1f5c3}", &e));
    let f = ["mp4", "mov", "avi", "webm", "wmv", "mp3", "wav", "ogg"];
    r.push(category("Media", "\u{1f3ac}", &f));
    let g = ["lnk", "prefetch", "registry", "evtx", "bek"];
    r.push(category("Windows Artefacts", "\u{1fa9f}", &g));
    let h = ["elf"];
    r.push(category("Executables", "\u{2699}", &h));
    proof {
        assert(str_views(a@) =~= catalog_spec()[0].1);
        assert(str_views(b@) =~= catalog_spec()[1].1);
        assert(str_views(c@) =~= catalog_spec()[2].1);
        assert(str_views(d@) =~= catalog_spec()[3].1);
        assert(str_views(e@) =~= catalog_spec()[4].1);
        assert(str_views(f@) =~= catalog_spec()[5].1);
        assert(str_views(g@) =~= catalog_spec()[6].1);
        assert(str_views(h@) =~= catalog_spec()[7].1);
    }
    r
}

/// File types whose carving relies on the ZIP carver and are therefore skipped
/// when SwiftBeaver runs with `--disable-zip`.
pub fn zip_derived_types() -> (r: Vec<&'static str>)
    ensures
        str_views(r@) == seq!["zip"@, "docx"@, "xlsx"@, "pptx"@],
{
    let mut r: Vec<&'static str> = Vec::new();
    r.push("zip");
    r.push("docx");
    r.push("xlsx");
    r.push("pptx");
    assert(str_views(r@) =~= seq!["zip"@, "docx"@, "xlsx"@, "pptx"@]);
    r
}

/// Hash algorithms recognised by SwiftBeaver's `--hash-algorithms` flag.
pub fn supported_hash_algorithms() -> (r: Vec<&'static str>)
    ensures
        str_views(r@) == seq!["md5"@, "sha256"@],
{
    let mut r: Vec<&'static str> = Vec::new();
    r.push("md5");
    r.push("sha256");
    assert(str_views(r@) =~= seq!["md5"@, "sha256"@]);
    r
}

pub open spec fn is_supported_hash(lower: Seq<char>) -> bool {
    lower == "md5"@ || lower == "sha256"@
}

pub open spec fn any_sha256(hs: Seq<String>) -> bool {
    exists|i: int| 0 <= i < hs.len() && ascii_lower_seq(#[trigger] hs[i]@) == "sha256"@
}

/// Whether the selection names `sha256` (ignoring ASCII case).
pub fn hash_algorithms_include_sha256(algorithms: &Vec<String>) -> (r: bool)
    ensures
        r == any_sha256(algorithms@),
{
    let mut i: usize = 0;
    while i < algorithms.len()
        invariant
            i <= algorithms@.len(),
            forall|j: int| 0 <= j < i ==> ascii_lower_seq(#[trigger] algorithms@[j]@) != "sha256"@,
        decreases algorithms@.len() - i,
    {
        let a = chars_of(algorithms[i].as_str());
        if eq_ignore_ascii_case(&a, "sha256") {
            proof {
                reveal_strlit("sha256");
                assert(ascii_lower_seq("sha256"@) =~= "sha256"@);
            }
            return true;
        }
        proof {
            reveal_strlit("sha256");
            assert(ascii_lower_seq("sha256"@) =~= "sha256"@);
        }
        i = i + 1;
    }
    false
}

// ---------------------------------------------------------------------------
// Flag-combination validation
// ---------------------------------------------------------------------------

/// True if `path` looks like a Unix raw block-device path.
pub open spec fn is_raw_device(path: Seq<char>) -> bool {
    has_prefix(path, "/dev/"@)
}

pub fn is_raw_device_path(path: &str) -> (r: bool)
    ensures
        r == is_raw_device(path@),
{
    let p = chars_of(path);
    starts_with_str(&p, "/dev/")
}

/// Whether two paths are equal component by component (`Path == Path`).
pub uninterp spec fn same_path_components(a: Seq<char>, b: Seq<char>) -> bool;

/// `Path::new(a) == Path::new(b)`: the contract names the result
/// `same_path_components` and states only that equal strings give equal paths;
/// the component normalisation of `std::path` is not spelled out.
#[verifier::external_body]
fn path_components_equal(a: &str, b: &str) -> (r: bool)
    ensures
        r == same_path_components(a@, b@),
        a@ == b@ ==> r,
{
    std::path::Path::new(a) == std::path::Path::new(b)
}

/// `Path::canonicalize`: the absolute path with symlinks resolved, when the
/// path exists. The answer depends on the disk; nothing is promised of it.
#[verifier::external_body]
fn canonical_path(p: &str) -> (r: Option<String>) {
    std::path::Path::new(p).canonicalize().ok().map(|c| c.to_string_lossy().into_owned())
}

/// Best-effort same-target comparison that tolerates non-existent paths: equal
/// paths, or paths whose canonical forms are equal.
pub fn paths_refer_to_same_target(a: &str, b: &str) -> (r: bool)
    ensures
        same_path_components(a@, b@) ==> r,
        a@ == b@ ==> r,
{
    if path_components_equal(a, b) {
        return true;
    }
    match (canonical_path(a), canonical_path(b)) {
        (Some(ca), Some(cb)) => {
            let x = chars_of(ca.as_str());
            let y = chars_of(cb.as_str());
            crate::text::seq_eq(&x, &y)
        },
        _ => false,
    }
}

pub open spec fn unsupported_hash_message(algo: Seq<char>) -> Seq<char> {
    "Unsupported hash algorithm '"@ + algo + "': expected one of md5, sha256"@
}

pub open spec fn hash_issues(hs: Seq<String>) -> Seq<Seq<char>>
    decreases hs.len(),
{
    if hs.len() == 0 {
        seq![]
    } else {
        let rest = hash_issues(hs.drop_last());
        if is_supported_hash(ascii_lower_seq(hs.last()@)) {
            rest
        } else {
            rest.push(unsupported_hash_message(hs.last()@))
        }
    }
}

pub open spec fn nonempty_opt(o: Option<String>) -> Option<Seq<char>> {
    match o {
        Some(s) => if s@.len() > 0 {
            Some(s@)
        } else {
            None
        },
        None => None,
    }
}

/// The issues with a configuration, given whether its checkpoint path names the
/// same target as its input (the only part that consults the disk).
pub open spec fn flag_issues(c: ScanConfig, checkpoint_is_input: bool) -> Seq<Seq<char>> {
    let a: Seq<Seq<char>> = if c.dry_run && c.metadata_only {
        seq!["--dry-run and --metadata-only are mutually exclusive"@]
    } else {
        seq![]
    };
    let b: Seq<Seq<char>> = if c.remove_invalid && !c.validate_carved {
        seq!["--remove-invalid requires --validate-carved"@]
    } else {
        seq![]
    };
    let d: Seq<Seq<char>> = if c.skip_duplicates && !c.dedupe {
        seq!["--skip-duplicates requires --dedupe"@]
    } else {
        seq![]
    };
    let e: Seq<Seq<char>> = match nonempty_opt(c.checkpoint_path) {
        Some(ckpt) => if c.input_path@.len() > 0 && checkpoint_is_input {
            seq!["--checkpoint-path must not point at the evidence input"@]
        } else if is_raw_device(ckpt) {
            seq!["--checkpoint-path must not point at a raw block device (/dev/...)"@]
        } else {
            seq![]
        },
        None => seq![],
    };
    a + b + d + hash_issues(c.hash_algorithms@) + e
}

fn push_message(out: &mut Vec<String>, msg: &str)
    ensures
        string_views(final(out)@) == string_views(old(out)@).push(msg@),
{
    let s = string_of_str(msg);
    out.push(s);
    assert(string_views(out@) =~= string_views(old(out)@).push(msg@));
}

/// Cross-field validation for SwiftBeaver flag combinations, given whether the
/// checkpoint path names the same target as the input.
///
/// Returns human-readable issues; empty means the combination is acceptable.
pub fn flag_issues_for(config: &ScanConfig, checkpoint_is_input: bool) -> (r: Vec<String>)
    ensures
        string_views(r@) == flag_issues(*config, checkpoint_is_input),
{
    let mut issues: Vec<String> = Vec::new();
    if config.dry_run && config.metadata_only {
        push_message(&mut issues, "--dry-run and --metadata-only are mutually exclusive");
    }
    if config.remove_invalid && !config.validate_carved {
        push_message(&mut issues, "--remove-invalid requires --validate-carved");
    }
    if config.skip_duplicates && !config.dedupe {
        push_message(&mut issues, "--skip-duplicates requires --dedupe");
    }
    let ghost base = string_views(issues@);
    let hs = &config.hash_algorithms;
    let mut i: usize = 0;
    assert(hs@.subrange(0, 0) =~= Seq::<String>::empty());
    assert(base + hash_issues(Seq::<String>::empty()) =~= base);
    while i < hs.len()
        invariant
            i <= hs@.len(),
            string_views(issues@) == base + hash_issues(hs@.subrange(0, i as int)),
        decreases hs@.len() - i,
    {
        let algo = chars_of(hs[i].as_str());
        let lower = to_ascii_lower(&algo);
        let ghost sub = hs@.subrange(0, i + 1);
        assert(sub.drop_last() =~= hs@.subrange(0, i as int));
        assert(sub.last() == hs@[i as int]);
        if !(eq_str(&lower, "md5") || eq_str(&lower, "sha256")) {
            let mut msg: Vec<char> = Vec::new();
            append_str(&mut msg, "Unsupported hash algorithm '");
            append_str(&mut msg, hs[i].as_str());
            append_str(&mut msg, "': expected one of md5, sha256");
            let m = string_of(&msg);
            let ghost prev = issues@;
            issues.push(m);
            assert(string_views(issues@) =~= string_views(prev).push(m@));
        }
        i = i + 1;
    }
    assert(hs@.subrange(0, hs@.len() as int) =~= hs@);
    match &config.checkpoint_path {
        Some(ckpt) => {
            if ckpt.as_str().unicode_len() > 0 {
                if config.input_path.as_str().unicode_len() > 0 && checkpoint_is_input {
                    push_message(&mut issues, "--checkpoint-path must not point at the evidence input");
                } else if is_raw_device_path(ckpt.as_str()) {
                    push_message(
                        &mut issues,
                        "--checkpoint-path must not point at a raw block device (/dev/...)",
                    );
                }
            }
        },
        None => {},
    }
    issues
}

/// The default configuration is a valid flag combination: it raises no issue,
/// whatever its checkpoint path is found to name.
pub proof fn lemma_default_config_has_no_flag_issues(c: ScanConfig, checkpoint_is_input: bool)
    requires
        is_default_config(c),
    ensures
        flag_issues(c, checkpoint_is_input) == Seq::<Seq<char>>::empty(),
{
    assert(c.hash_algorithms@ =~= Seq::<String>::empty());
    assert(flag_issues(c, checkpoint_is_input) =~= Seq::<Seq<char>>::empty());
}

/// The selected hash algorithms that are neither `md5` nor `sha256` (ignoring
/// ASCII case), in selection order.
pub open spec fn unsupported_hashes(hs: Seq<String>) -> Seq<String> {
    hs.filter(|h: String| !is_supported_hash(ascii_lower_seq(h@)))
}

pub open spec fn indicator(b: bool) -> nat {
    if b {
        1
    } else {
        0
    }
}

/// The checkpoint path is named and points at the evidence input or at a raw
/// block device.
pub open spec fn checkpoint_misplaced(c: ScanConfig, checkpoint_is_input: bool) -> bool {
    match nonempty_opt(c.checkpoint_path) {
        Some(ckpt) => (c.input_path@.len() > 0 && checkpoint_is_input) || is_raw_device(ckpt),
        None => false,
    }
}

proof fn lemma_hash_issue_count(hs: Seq<String>)
    ensures
        hash_issues(hs).len() == unsupported_hashes(hs).len(),
    decreases hs.len(),
{
    reveal(Seq::filter);
    if hs.len() > 0 {
        lemma_hash_issue_count(hs.drop_last());
    }
}

/// One issue per violated rule: the number of issues is the number of rules
/// the configuration breaks, counting each unsupported hash algorithm once.
/// So the combination is accepted exactly when it breaks none.
pub proof fn lemma_flag_issue_count(c: ScanConfig, checkpoint_is_input: bool)
    ensures
        flag_issues(c, checkpoint_is_input).len() == indicator(c.dry_run && c.metadata_only)
            + indicator(c.remove_invalid && !c.validate_carved) + indicator(
            c.skip_duplicates && !c.dedupe,
        ) + unsupported_hashes(c.hash_algorithms@).len() + indicator(
            checkpoint_misplaced(c, checkpoint_is_input),
        ),
{
    lemma_hash_issue_count(c.hash_algorithms@);
}

/// Cross-field validation for SwiftBeaver flag combinations.
///
/// Returns a list of human-readable issues. An empty `Vec` means the
/// combination is acceptable. Path/existence checks live in the UI layer.
pub fn validate_flag_combinations(config: &ScanConfig) -> (r: Vec<String>)
    ensures
        exists|same: bool|
            #![trigger flag_issues(*config, same)]
            string_views(r@) == flag_issues(*config, same) && (checkpoint_matches_input(*config) ==> same),
{
    let same = checkpoint_names_input(config);
    flag_issues_for(config, same)
}

/// The checkpoint path is the input path, or the same path by its components.
pub open spec fn checkpoint_matches_input(c: ScanConfig) -> bool {
    match c.checkpoint_path {
        Some(p) => p@ == c.input_path@ || same_path_components(p@, c.input_path@),
        None => false,
    }
}

/// Whether the checkpoint path names the same target as the input: equal or
/// component-wise equal paths always do; otherwise the disk decides (both
/// canonicalise to the same path).
pub fn checkpoint_names_input(config: &ScanConfig) -> (same: bool)
    ensures
        checkpoint_matches_input(*config) ==> same,
        config.checkpoint_path is None ==> !same,
{
    match &config.checkpoint_path {
        Some(ckpt) => {
            if ckpt.as_str().unicode_len() > 0 && config.input_path.as_str().unicode_len() > 0 {
                paths_refer_to_same_target(ckpt.as_str(), config.input_path.as_str())
            } else {
                let x = chars_of(ckpt.as_str());
                let y = chars_of(config.input_path.as_str());
                let eq = crate::text::seq_eq(&x, &y);
                if eq {
                    true
                } else {
                    path_components_equal(ckpt.as_str(), config.input_path.as_str())
                }
            }
        },
        None => false,
    }
}

/// One of the image formats of the catalog.
pub open spec fn is_image_type(s: Seq<char>) -> bool {
    s == "jpeg"@
    || s == "png"@
    || s == "gif"@
    || s == "webp"@
    || s == "bmp"@
    || s == "tiff"@
    || s == "heic"@
    || s == "ico"@
}

proof fn lemma_not_image(s: Seq<char>)
    requires
        s.len() == 3 ==> !((s[0] == 'p' && s[1] == 'n') || (s[0] == 'g' && s[1] == 'i') || (s[0] == 'b' && s[1] == 'm')
            || (s[0] == 'i' && s[1] == 'c')),
        s.len() == 4 ==> !((s[0] == 'j' && s[3] == 'g') || (s[0] == 'w' && s[3] == 'p') || (s[0] == 't' && s[3] == 'f')
            || (s[0] == 'h' && s[3] == 'c')),
    ensures
        !is_image_type(s),
{
    reveal_strlit("jpeg");
    reveal_strlit("png");
    reveal_strlit("gif");
    reveal_strlit("webp");
    reveal_strlit("bmp");
    reveal_strlit("tiff");
    reveal_strlit("heic");
    reveal_strlit("ico");
}

/// The catalog is this fixed table, category by category in display order.
/// In particular the Images category is exactly jpeg, png, gif, webp, bmp,
/// tiff, heic and ico, and no other category holds an image format.
pub proof fn lemma_catalog_table()
    ensures
        catalog_spec() == seq![
            (
                "Images"@,
                seq![
                    "jpeg"@,
                    "png"@,
                    "gif"@,
                    "webp"@,
                    "bmp"@,
                    "tiff"@,
                    "heic"@,
                    "ico"@,
                ],
            ),
            (
                "Documents"@,
                seq![
                    "pdf"@,
                    "doc"@,
                    "docx"@,
                    "xls"@,
                    "xlsx"@,
                    "ppt"@,
                    "pptx"@,
                    "odt"@,
                    "ods"@,
                    "odp"@,
                    "rtf"@,
                    "eml"@,
                ],
            ),
            (
                "eBooks"@,
                seq![
                    "epub"@,
                    "mobi"@,
                    "fb2"@,
                    "lrf"@,
                ],
            ),
            (
                "Archives"@,
                seq![
                    "zip"@,
                    "rar"@,
                    "7z"@,
                    "tar"@,
                    "gzip"@,
                    "bzip2"@,
                    "xz"@,
                ],
            ),
            (
                "Databases"@,
                seq![
                    "sqlite"@,
                    "sqlite_wal"@,
                    "sqlite_page"@,
                ],
            ),
            (
                "Media"@,
                seq![
                    "mp4"@,
                    "mov"@,
                    "avi"@,
                    "webm"@,
                    "wmv"@,
                    "mp3"@,
                    "wav"@,
                    "ogg"@,
                ],
            ),
            (
                "Windows Artefacts"@,
                seq![
                    "lnk"@,
                    "prefetch"@,
                    "registry"@,
                    "evtx"@,
                    "bek"@,
                ],
            ),
            (
                "Executables"@,
                seq![
                    "elf"@,
                ],
            ),
        ],
        forall|i: int, k: int|
            1 <= i < catalog_spec().len() && 0 <= k < catalog_spec()[i].1.len() ==> !is_image_type(
                #[trigger] catalog_spec()[i].1[k],
            ),
{
    reveal_strlit("pdf");
    lemma_not_image("pdf"@);
    reveal_strlit("doc");
    lemma_not_image("doc"@);
    reveal_strlit("docx");
    lemma_not_image("docx"@);
    reveal_strlit("xls");
    lemma_not_image("xls"@);
    reveal_strlit("xlsx");
    lemma_not_image("xlsx"@);
    reveal_strlit("ppt");
    lemma_not_image("ppt"@);
    reveal_strlit("pptx");
    lemma_not_image("pptx"@);
    reveal_strlit("odt");
    lemma_not_image("odt"@);
    reveal_strlit("ods");
    lemma_not_image("ods"@);
    reveal_strlit("odp");
    lemma_not_image("odp"@);
    reveal_strlit("rtf");
    lemma_not_image("rtf"@);
    reveal_strlit("eml");
    lemma_not_image("eml"@);
    reveal_strlit("epub");
    lemma_not_image("epub"@);
    reveal_strlit("mobi");
    lemma_not_image("mobi"@);
    reveal_strlit("fb2");
    lemma_not_image("fb2"@);
    reveal_strlit("lrf");
    lemma_not_image("lrf"@);
    reveal_strlit("zip");
    lemma_not_image("zip"@);
    reveal_strlit("rar");
    lemma_not_image("rar"@);
    reveal_strlit("7z");
    lemma_not_image("7z"@);
    reveal_strlit("tar");
    lemma_not_image("tar"@);
    reveal_strlit("gzip");
    lemma_not_image("gzip"@);
    reveal_strlit("bzip2");
    lemma_not_image("bzip2"@);
    reveal_strlit("xz");
    lemma_not_image("xz"@);
    reveal_strlit("sqlite");
    lemma_not_image("sqlite"@);
    reveal_strlit("sqlite_wal");
    lemma_not_image("sqlite_wal"@);
    reveal_strlit("sqlite_page");
    lemma_not_image("sqlite_page"@);
    reveal_strlit("mp4");
    lemma_not_image("mp4"@);
    reveal_strlit("mov");
    lemma_not_image("mov"@);
    reveal_strlit("avi");
    lemma_not_image("avi"@);
    reveal_strlit("webm");
    lemma_not_image("webm"@);
    reveal_strlit("wmv");
    lemma_not_image("wmv"@);
    reveal_strlit("mp3");
    lemma_not_image("mp3"@);
    reveal_strlit("wav");
    lemma_not_image("wav"@);
    reveal_strlit("ogg");
    lemma_not_image("ogg"@);
    reveal_strlit("lnk");
    lemma_not_image("lnk"@);
    reveal_strlit("prefetch");
    lemma_not_image("prefetch"@);
    reveal_strlit("registry");
    lemma_not_image("registry"@);
    reveal_strlit("evtx");
    lemma_not_image("evtx"@);
    reveal_strlit("bek");
    lemma_not_image("bek"@);
    reveal_strlit("elf");
    lemma_not_image("elf"@);
}

} // verus!
