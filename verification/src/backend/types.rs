//! Records exchanged with the web frontend.

use vstd::prelude::*;

use crate::text::{string_of_str, string_views};

verus! {

/// Configuration for a scan operation, received from the frontend.
///
/// The entropy threshold is held in thousandths (`7500` is 7.5 bits per byte).
#[derive(Debug, Clone)]
pub struct GuiScanConfig {
    pub input_path: String,
    pub output_path: String,
    pub compute_evidence_hash: bool,
    pub evidence_sha256: Option<String>,
    pub file_types: Vec<String>,
    pub disable_zip: bool,
    pub scan_strings: bool,
    pub scan_urls: bool,
    pub scan_emails: bool,
    pub scan_phones: bool,
    pub scan_utf16: bool,
    pub string_min_len: usize,
    pub string_max_len: usize,
    pub gpu_enabled: bool,
    /// "opencl" | "cuda"
    pub gpu_backend: Option<String>,
    pub scan_entropy: bool,
    pub entropy_window_bytes: usize,
    pub entropy_threshold_milli: u64,
    pub scan_sqlite_pages: bool,
    pub max_bytes: Option<u64>,
    pub max_chunks: Option<u64>,
    pub max_files: Option<u64>,
    pub max_memory_mib: Option<u64>,
    pub overlap_kib: u64,
    /// "jsonl" | "csv" | "parquet"
    pub metadata_backend: String,
    pub workers: usize,
    pub chunk_size_mib: u64,
}

pub open spec fn gui_default_types() -> Seq<Seq<char>> {
    seq!["jpeg"@, "png"@, "gif"@, "pdf"@, "zip"@, "sqlite"@, "docx"@, "xlsx"@, "pptx"@]
}

/// The frontend's defaults.
pub open spec fn is_gui_default(c: GuiScanConfig) -> bool {
    &&& c.input_path@.len() == 0 && c.output_path@.len() == 0
    &&& c.compute_evidence_hash && c.evidence_sha256 is None
    &&& string_views(c.file_types@) == gui_default_types()
    &&& !c.disable_zip && c.scan_strings && c.scan_urls && c.scan_emails && c.scan_phones && !c.scan_utf16
    &&& c.string_min_len == 8 && c.string_max_len == 4096
    &&& !c.gpu_enabled && c.gpu_backend is None
    &&& !c.scan_entropy && c.entropy_window_bytes == 256 && c.entropy_threshold_milli == 7500
    &&& !c.scan_sqlite_pages
    &&& c.max_bytes is None && c.max_chunks is None && c.max_files is None && c.max_memory_mib is None
    &&& c.overlap_kib == 4 && c.metadata_backend@ == "parquet"@ && c.workers == 0 && c.chunk_size_mib == 64
}

impl Default for GuiScanConfig {
    fn default() -> (r: Self)
        ensures
            is_gui_default(r),
    {
        let names = ["jpeg", "png", "gif", "pdf", "zip", "sqlite", "docx", "xlsx", "pptx"];
        let mut file_types: Vec<String> = Vec::new();
        let n = names.len();
        for i in 0..n
            invariant
                n == names@.len(),
                file_types@.len() == i,
                forall|j: int| 0 <= j < i ==> (#[trigger] file_types@[j])@ == names@[j]@,
        {
            file_types.push(string_of_str(names[i]));
        }
        proof {
            assert(string_views(file_types@) =~= gui_default_types());
        }
        GuiScanConfig {
            input_path: String::new(),
            output_path: String::new(),
            compute_evidence_hash: true,
            evidence_sha256: None,
            file_types,
            disable_zip: false,
            scan_strings: true,
            scan_urls: true,
            scan_emails: true,
            scan_phones: true,
            scan_utf16: false,
            string_min_len: 8,
            string_max_len: 4096,
            gpu_enabled: false,
            gpu_backend: None,
            scan_entropy: false,
            entropy_window_bytes: 256,
            entropy_threshold_milli: 7500,
            scan_sqlite_pages: false,
            max_bytes: None,
            max_chunks: None,
            max_files: None,
            max_memory_mib: None,
            overlap_kib: 4,
            metadata_backend: string_of_str("parquet"),
            workers: 0,
            chunk_size_mib: 64,
        }
    }
}

/// Current state of a scan.
#[derive(Debug, Clone, Copy, PartialEq, Eq, Structural)]
pub enum ScanState {
    Idle,
    Running,
    Paused,
    Completed,
    Failed,
    Cancelled,
}

/// Progress snapshot sent to the frontend. The elapsed time and throughput
/// are kept as the decimal text the engine printed.
#[derive(Debug, Clone)]
pub struct GuiScanProgress {
    pub bytes_scanned: u64,
    pub total_bytes: u64,
    pub chunks_processed: u64,
    pub hits_found: u64,
    pub files_carved: u64,
    pub string_spans: u64,
    pub artefacts_extracted: u64,
    pub carve_errors: u64,
    pub metadata_errors: u64,
    pub sqlite_errors: u64,
    /// Seconds elapsed (`None` when not reported, which counts as 0).
    pub elapsed_seconds: Option<String>,
    pub throughput_mib: String,
    pub eta_seconds: Option<u64>,
}

/// Scan status response.
#[derive(Debug, Clone)]
pub struct ScanStatus {
    pub state: ScanState,
    pub run_id: Option<String>,
    pub started_at: Option<String>,
    pub progress: Option<GuiScanProgress>,
    pub error: Option<String>,
}

impl Default for ScanStatus {
    fn default() -> (r: Self)
        ensures
            r.state == ScanState::Idle && r.run_id is None && r.started_at is None
                && r.progress is None && r.error is None,
    {
        ScanStatus { state: ScanState::Idle, run_id: None, started_at: None, progress: None, error: None }
    }
}

/// Handle returned when starting a scan.
#[derive(Debug, Clone)]
pub struct ScanHandle {
    pub run_id: String,
}

/// Carved file info sent to the frontend.
#[derive(Debug, Clone)]
pub struct GuiCarvedFile {
    pub run_id: String,
    pub file_type: String,
    pub path: String,
    pub extension: String,
    pub global_start: u64,
    pub global_end: u64,
    pub size: u64,
    pub md5: Option<String>,
    pub sha256: Option<String>,
    pub validated: bool,
    pub truncated: bool,
    pub errors: Vec<String>,
    pub pattern_id: Option<String>,
}

/// String artefact info sent to the frontend.
#[derive(Debug, Clone)]
pub struct GuiStringArtefact {
    pub run_id: String,
    /// "url" | "email" | "phone" | "string"
    pub artefact_kind: String,
    pub content: String,
    pub encoding: String,
    pub global_start: u64,
    pub global_end: u64,
}

/// Browser history record.
#[derive(Debug, Clone)]
pub struct GuiBrowserHistory {
    pub run_id: String,
    pub source_file: String,
    pub browser: String,
    pub url: String,
    pub title: Option<String>,
    pub visit_count: Option<i64>,
    pub last_visit_time: Option<String>,
}

/// Run summary.
#[derive(Debug, Clone)]
pub struct GuiRunSummary {
    pub run_id: String,
    pub bytes_scanned: u64,
    pub chunks_processed: u64,
    pub hits_found: u64,
    pub files_carved: u64,
    pub string_spans: u64,
    pub artefacts_extracted: u64,
}

/// System information.
#[derive(Debug, Clone)]
pub struct SystemInfo {
    pub os_name: Option<String>,
    pub os_version: Option<String>,
    pub cpu_cores: u32,
    pub cpu_model: Option<String>,
    pub total_memory: u64,
    pub available_memory: u64,
    pub gpus: Vec<GpuInfo>,
}

/// GPU device info.
#[derive(Debug, Clone)]
pub struct GpuInfo {
    pub name: String,
    pub vendor: Option<String>,
    pub driver_version: Option<String>,
    pub memory_bytes: Option<u64>,
    pub backend: String,
}

/// Block device info (Linux).
#[derive(Debug, Clone)]
pub struct BlockDevice {
    pub path: String,
    pub name: String,
    pub size_bytes: u64,
    pub model: Option<String>,
}

/// Event: file was carved.
#[derive(Debug, Clone)]
pub struct FileCarvedEvent {
    pub file_type: String,
    pub path: String,
    pub offset: u64,
    pub size: u64,
    pub sha256: Option<String>,
}

/// Event: log message.
#[derive(Debug, Clone)]
pub struct LogMessageEvent {
    /// "info" | "warn" | "error" | "debug"
    pub level: String,
    pub timestamp: String,
    pub message: String,
}

/// Event: scan state changed.
#[derive(Debug, Clone)]
pub struct ScanStateChangedEvent {
    pub state: ScanState,
    pub message: Option<String>,
}

/// Event: artefact found.
#[derive(Debug, Clone)]
pub struct ArtefactFoundEvent {
    pub artefact_type: String,
    pub value: String,
    pub offset: u64,
}

} // verus!
