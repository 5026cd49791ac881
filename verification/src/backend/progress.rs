//! JSON log records of the engine as the command backend reads them.

use vstd::prelude::*;

use super::scan::{gui_progress_of, gui_progress_ok, parse_progress_message};
use super::types::{GuiScanProgress, LogMessageEvent};
use crate::scan::progress::opt_view;
use crate::text::{chars_of, eq_str, has_prefix, starts_with_str, string_of_str};

verus! {

// ---------------------------------------------------------------------------
// JSON log records
// ---------------------------------------------------------------------------

/// The members of a record's `fields` object that a progress report reads
/// (each `None` when absent or not of the kind read). `hits_found` and
/// `files_carved` tell presence apart from the value: the outer `Option` is
/// whether the member is there.
#[derive(Debug, Clone)]
pub struct JsonProgressFields {
    pub bytes_scanned: Option<u64>,
    pub total_bytes: Option<u64>,
    pub chunks_processed: Option<u64>,
    pub hits_found: Option<Option<u64>>,
    pub hits: Option<u64>,
    pub files_carved: Option<Option<u64>>,
    pub files: Option<u64>,
    pub string_spans: Option<u64>,
    pub artefacts_extracted: Option<u64>,
    pub carve_errors: Option<u64>,
    pub metadata_errors: Option<u64>,
    pub sqlite_errors: Option<u64>,
    /// The number as decimal text.
    pub elapsed_seconds: Option<String>,
    /// The number as decimal text.
    pub throughput_mib: Option<String>,
    pub eta_seconds: Option<u64>,
}

/// Mathematical model of [`JsonProgressFields`].
pub struct ProgressFieldsView {
    pub bytes_scanned: Option<u64>,
    pub total_bytes: Option<u64>,
    pub chunks_processed: Option<u64>,
    pub hits_found: Option<Option<u64>>,
    pub hits: Option<u64>,
    pub files_carved: Option<Option<u64>>,
    pub files: Option<u64>,
    pub string_spans: Option<u64>,
    pub artefacts_extracted: Option<u64>,
    pub carve_errors: Option<u64>,
    pub metadata_errors: Option<u64>,
    pub sqlite_errors: Option<u64>,
    pub elapsed_seconds: Option<Seq<char>>,
    pub throughput_mib: Option<Seq<char>>,
    pub eta_seconds: Option<u64>,
}

impl View for JsonProgressFields {
    type V = ProgressFieldsView;

    open spec fn view(&self) -> ProgressFieldsView {
        ProgressFieldsView {
            bytes_scanned: self.bytes_scanned,
            total_bytes: self.total_bytes,
            chunks_processed: self.chunks_processed,
            hits_found: self.hits_found,
            hits: self.hits,
            files_carved: self.files_carved,
            files: self.files,
            string_spans: self.string_spans,
            artefacts_extracted: self.artefacts_extracted,
            carve_errors: self.carve_errors,
            metadata_errors: self.metadata_errors,
            sqlite_errors: self.sqlite_errors,
            elapsed_seconds: opt_view(self.elapsed_seconds),
            throughput_mib: opt_view(self.throughput_mib),
            eta_seconds: self.eta_seconds,
        }
    }
}

/// The members of a JSON log record that the command backend reads: the
/// string members `level`, `message`, `target` and `timestamp`, and the
/// progress members of `fields` when it has a `bytes_scanned` member.
#[derive(Debug, Clone)]
pub struct JsonLogRecord {
    pub level: Option<String>,
    pub message: Option<String>,
    pub target: Option<String>,
    pub timestamp: Option<String>,
    pub fields: Option<JsonProgressFields>,
}

/// Mathematical model of [`JsonLogRecord`].
pub struct LogRecordView {
    pub level: Option<Seq<char>>,
    pub message: Option<Seq<char>>,
    pub target: Option<Seq<char>>,
    pub timestamp: Option<Seq<char>>,
    pub fields: Option<ProgressFieldsView>,
}

impl View for JsonLogRecord {
    type V = LogRecordView;

    open spec fn view(&self) -> LogRecordView {
        LogRecordView {
            level: opt_view(self.level),
            message: opt_view(self.message),
            target: opt_view(self.target),
            timestamp: opt_view(self.timestamp),
            fields: match self.fields {
                Some(f) => Some(f@),
                None => None,
            },
        }
    }
}

/// Whether `serde_json::from_str` reads a line as JSON.
pub uninterp spec fn json_is_value_of(line: Seq<char>) -> bool;

/// The string at a JSON pointer of a line read as JSON (`None` when the line
/// is not JSON, or nothing or no string is there).
pub uninterp spec fn json_text_at_of(line: Seq<char>, pointer: Seq<char>) -> Option<Seq<char>>;

/// The unsigned integer at a JSON pointer of a line read as JSON.
pub uninterp spec fn json_u64_at_of(line: Seq<char>, pointer: Seq<char>) -> Option<u64>;

/// Whether a line read as JSON has a value at a JSON pointer.
pub uninterp spec fn json_has_at_of(line: Seq<char>, pointer: Seq<char>) -> bool;

/// The number at a JSON pointer of a line read as JSON, as `f64` and then as
/// decimal text.
pub uninterp spec fn json_number_text_at_of(line: Seq<char>, pointer: Seq<char>) -> Option<Seq<char>>;

/// `serde_json::from_str` of the line succeeds; the result is the name above.
#[verifier::external_body]
pub(crate) fn json_is_value(line: &str) -> (r: bool)
    ensures
        r == json_is_value_of(line@),
{
    serde_json::from_str::<serde_json::Value>(line).is_ok()
}

/// `Value::pointer` then `Value::as_str` on the line read as JSON.
#[verifier::external_body]
pub(crate) fn json_text_at(line: &str, pointer: &str) -> (r: Option<String>)
    ensures
        opt_view(r) == json_text_at_of(line@, pointer@),
{
    let v: serde_json::Value = serde_json::from_str(line).ok()?;
    v.pointer(pointer).and_then(serde_json::Value::as_str).map(String::from)
}

/// `Value::pointer` then `Value::as_u64` on the line read as JSON.
#[verifier::external_body]
fn json_u64_at(line: &str, pointer: &str) -> (r: Option<u64>)
    ensures
        r == json_u64_at_of(line@, pointer@),
{
    let v: serde_json::Value = serde_json::from_str(line).ok()?;
    v.pointer(pointer).and_then(serde_json::Value::as_u64)
}

/// Whether `Value::pointer` finds a value in the line read as JSON.
#[verifier::external_body]
fn json_has_at(line: &str, pointer: &str) -> (r: bool)
    ensures
        r == json_has_at_of(line@, pointer@),
{
    let v: Option<serde_json::Value> = serde_json::from_str(line).ok();
    v.map(|v| v.pointer(pointer).is_some()).unwrap_or(false)
}

/// `Value::pointer` then `Value::as_f64` on the line read as JSON, printed
/// with `Display`.
#[verifier::external_body]
fn json_number_text_at(line: &str, pointer: &str) -> (r: Option<String>)
    ensures
        opt_view(r) == json_number_text_at_of(line@, pointer@),
{
    let v: serde_json::Value = serde_json::from_str(line).ok()?;
    v.pointer(pointer).and_then(serde_json::Value::as_f64).map(|x| x.to_string())
}

/// What the command backend reads of a log line: nothing when the line is not
/// JSON; otherwise the string members `level`, `message`, `target` and
/// `timestamp`, and the progress members of `fields` when it has a
/// `bytes_scanned` member.
pub open spec fn json_log_record_of(line: Seq<char>) -> Option<LogRecordView> {
    if !json_is_value_of(line) {
        None
    } else {
        Some(LogRecordView {
            level: json_text_at_of(line, "/level"@),
            message: json_text_at_of(line, "/message"@),
            target: json_text_at_of(line, "/target"@),
            timestamp: json_text_at_of(line, "/timestamp"@),
            fields: if json_has_at_of(line, "/fields/bytes_scanned"@) {
                Some(ProgressFieldsView {
                bytes_scanned: json_u64_at_of(line, "/fields/bytes_scanned"@),
                total_bytes: json_u64_at_of(line, "/fields/total_bytes"@),
                chunks_processed: json_u64_at_of(line, "/fields/chunks_processed"@),
                hits_found: if json_has_at_of(line, "/fields/hits_found"@) {
                    Some(json_u64_at_of(line, "/fields/hits_found"@))
                } else {
                    None
                },
                hits: json_u64_at_of(line, "/fields/hits"@),
                files_carved: if json_has_at_of(line, "/fields/files_carved"@) {
                    Some(json_u64_at_of(line, "/fields/files_carved"@))
                } else {
                    None
                },
                files: json_u64_at_of(line, "/fields/files"@),
                string_spans: json_u64_at_of(line, "/fields/string_spans"@),
                artefacts_extracted: json_u64_at_of(line, "/fields/artefacts_extracted"@),
                carve_errors: json_u64_at_of(line, "/fields/carve_errors"@),
                metadata_errors: json_u64_at_of(line, "/fields/metadata_errors"@),
                sqlite_errors: json_u64_at_of(line, "/fields/sqlite_errors"@),
                elapsed_seconds: json_number_text_at_of(line, "/fields/elapsed_seconds"@),
                throughput_mib: json_number_text_at_of(line, "/fields/throughput_mib"@),
                eta_seconds: json_u64_at_of(line, "/fields/eta_seconds"@),
                })
            } else {
                None
            },
        })
    }
}

/// Reads the members the backend uses from a log line.
pub fn read_json_log_record(line: &str) -> (r: Option<JsonLogRecord>)
    ensures
        match r {
            Some(rec) => json_log_record_of(line@) == Some(rec@),
            None => json_log_record_of(line@) is None,
        },
{
    if !json_is_value(line) {
        return None;
    }
    let fields = if json_has_at(line, "/fields/bytes_scanned") {
        Some(JsonProgressFields {
            bytes_scanned: json_u64_at(line, "/fields/bytes_scanned"),
            total_bytes: json_u64_at(line, "/fields/total_bytes"),
            chunks_processed: json_u64_at(line, "/fields/chunks_processed"),
            hits_found: if json_has_at(line, "/fields/hits_found") {
                Some(json_u64_at(line, "/fields/hits_found"))
            } else {
                None
            },
            hits: json_u64_at(line, "/fields/hits"),
            files_carved: if json_has_at(line, "/fields/files_carved") {
                Some(json_u64_at(line, "/fields/files_carved"))
            } else {
                None
            },
            files: json_u64_at(line, "/fields/files"),
            string_spans: json_u64_at(line, "/fields/string_spans"),
            artefacts_extracted: json_u64_at(line, "/fields/artefacts_extracted"),
            carve_errors: json_u64_at(line, "/fields/carve_errors"),
            metadata_errors: json_u64_at(line, "/fields/metadata_errors"),
            sqlite_errors: json_u64_at(line, "/fields/sqlite_errors"),
            elapsed_seconds: json_number_text_at(line, "/fields/elapsed_seconds"),
            throughput_mib: json_number_text_at(line, "/fields/throughput_mib"),
            eta_seconds: json_u64_at(line, "/fields/eta_seconds"),
        })
    } else {
        None
    };
    Some(JsonLogRecord {
        level: json_text_at(line, "/level"),
        message: json_text_at(line, "/message"),
        target: json_text_at(line, "/target"),
        timestamp: json_text_at(line, "/timestamp"),
        fields,
    })
}

pub open spec fn or_zero(v: Option<u64>) -> u64 {
    match v {
        Some(n) => n,
        None => 0,
    }
}

/// A counter read under a preferred name, else under an older one: the
/// preferred member wins when present, even when it is not a number.
pub open spec fn preferred_count(preferred: Option<Option<u64>>, older: Option<u64>) -> u64 {
    match preferred {
        Some(v) => or_zero(v),
        None => or_zero(older),
    }
}

/// `p` is the progress of structured fields: `bytes_scanned` and
/// `total_bytes` are required, the other counters default to 0, the
/// throughput to `0`.
pub open spec fn progress_from_fields(f: ProgressFieldsView, p: GuiScanProgress) -> bool {
    &&& f.bytes_scanned == Some(p.bytes_scanned)
    &&& f.total_bytes == Some(p.total_bytes)
    &&& p.chunks_processed == or_zero(f.chunks_processed)
    &&& p.hits_found == preferred_count(f.hits_found, f.hits)
    &&& p.files_carved == preferred_count(f.files_carved, f.files)
    &&& p.string_spans == or_zero(f.string_spans)
    &&& p.artefacts_extracted == or_zero(f.artefacts_extracted)
    &&& p.carve_errors == or_zero(f.carve_errors)
    &&& p.metadata_errors == or_zero(f.metadata_errors)
    &&& p.sqlite_errors == or_zero(f.sqlite_errors)
    &&& opt_view(p.elapsed_seconds) == f.elapsed_seconds
    &&& p.throughput_mib@ == (match f.throughput_mib {
        Some(t) => t,
        None => "0"@,
    })
    &&& p.eta_seconds == f.eta_seconds
}

fn or_zero_exec(v: Option<u64>) -> (r: u64)
    ensures
        r == or_zero(v),
{
    match v {
        Some(n) => n,
        None => 0,
    }
}

fn preferred_count_exec(preferred: Option<Option<u64>>, older: Option<u64>) -> (r: u64)
    ensures
        r == preferred_count(preferred, older),
{
    match preferred {
        Some(v) => or_zero_exec(v),
        None => or_zero_exec(older),
    }
}

/// Progress from a record's structured fields, when both byte counters are
/// there.
pub fn parse_progress_fields(f: &JsonProgressFields) -> (r: Option<GuiScanProgress>)
    ensures
        match r {
            Some(p) => progress_from_fields(f@, p),
            None => f.bytes_scanned is None || f.total_bytes is None,
        },
{
    let bytes_scanned = match f.bytes_scanned {
        Some(v) => v,
        None => return None,
    };
    let total_bytes = match f.total_bytes {
        Some(v) => v,
        None => return None,
    };
    let throughput_mib = match &f.throughput_mib {
        Some(t) => t.clone(),
        None => string_of_str("0"),
    };
    Some(GuiScanProgress {
        bytes_scanned,
        total_bytes,
        chunks_processed: or_zero_exec(f.chunks_processed),
        hits_found: preferred_count_exec(f.hits_found, f.hits),
        files_carved: preferred_count_exec(f.files_carved, f.files),
        string_spans: or_zero_exec(f.string_spans),
        artefacts_extracted: or_zero_exec(f.artefacts_extracted),
        carve_errors: or_zero_exec(f.carve_errors),
        metadata_errors: or_zero_exec(f.metadata_errors),
        sqlite_errors: or_zero_exec(f.sqlite_errors),
        elapsed_seconds: match &f.elapsed_seconds {
            Some(t) => Some(t.clone()),
            None => None,
        },
        throughput_mib,
        eta_seconds: f.eta_seconds,
    })
}

/// What a log record carries for the command backend.
#[derive(Debug, Clone)]
pub enum GuiLogPayload {
    Progress(GuiScanProgress),
    /// Any other record: its message, target and timestamp (empty when absent).
    Entry { message: String, target: String, timestamp: String },
}

pub open spec fn text_or_empty(t: Option<Seq<char>>) -> Seq<char> {
    match t {
        Some(s) => s,
        None => Seq::empty(),
    }
}

/// `(event_type, payload)` is what the command backend makes of `line`: a
/// JSON record with a string `level`; a parseable progress message gives
/// `progress`, then structured progress fields do, and any other record gives
/// its level in lower case with its message, target and timestamp.
pub open spec fn gui_log_event(line: Seq<char>, event_type: Seq<char>, payload: GuiLogPayload) -> bool {
    match json_log_record_of(line) {
        None => false,
        Some(rec) => match rec.level {
            None => false,
            Some(level) => {
                let msg = text_or_empty(rec.message);
                if has_prefix(msg, "progress "@) && gui_progress_ok(msg) {
                    event_type == "progress"@ && (payload matches GuiLogPayload::Progress(p) && gui_progress_of(msg, p))
                } else if rec.fields is Some && rec.fields.unwrap().bytes_scanned is Some
                    && rec.fields.unwrap().total_bytes is Some {
                    event_type == "progress"@ && (payload matches GuiLogPayload::Progress(p)
                        && progress_from_fields(rec.fields.unwrap(), p))
                } else {
                    event_type == crate::text::unicode_lowercase(level) && (payload matches GuiLogPayload::Entry {
                        message,
                        target,
                        timestamp,
                    } && message@ == msg && target@ == text_or_empty(rec.target) && timestamp@ == text_or_empty(
                        rec.timestamp,
                    ))
                }
            },
        },
    }
}

/// Whether `line` is a JSON record with a string `level`.
pub open spec fn is_gui_log_record(line: Seq<char>) -> bool {
    match json_log_record_of(line) {
        None => false,
        Some(rec) => rec.level is Some,
    }
}

proof fn lemma_gui_progress_of_ok(m: Seq<char>, p: GuiScanProgress)
    requires
        gui_progress_of(m, p),
    ensures
        gui_progress_ok(m),
{
}

fn text_or_empty_exec(t: &Option<String>) -> (r: String)
    ensures
        r@ == text_or_empty(opt_view(*t)),
{
    match t {
        Some(s) => s.clone(),
        None => String::new(),
    }
}

/// Parse a JSON log line of the engine for the command backend.
///
/// Returns `(event_type, payload)` where `event_type` is `progress` or the
/// record's level in lower case (`info`, `warn`, `error`, ...).
pub fn parse_json_log(line: &str) -> (r: Option<(String, GuiLogPayload)>)
    ensures
        match r {
            Some((et, payload)) => gui_log_event(line@, et@, payload),
            None => !is_gui_log_record(line@),
        },
{
    let rec = match read_json_log_record(line) {
        Some(r) => r,
        None => return None,
    };
    let level = match &rec.level {
        Some(l) => crate::text::lowercase(l.as_str()),
        None => return None,
    };
    let message = text_or_empty_exec(&rec.message);
    let mc = chars_of(message.as_str());
    if starts_with_str(&mc, "progress ") {
        match parse_progress_message(message.as_str()) {
            Some(p) => {
                proof {
                    lemma_gui_progress_of_ok(message@, p);
                }
                return Some((string_of_str("progress"), GuiLogPayload::Progress(p)));
            },
            None => {},
        }
    }
    match &rec.fields {
        Some(f) => match parse_progress_fields(f) {
            Some(p) => {
                return Some((string_of_str("progress"), GuiLogPayload::Progress(p)));
            },
            None => {},
        },
        None => {},
    }
    let target = text_or_empty_exec(&rec.target);
    let timestamp = text_or_empty_exec(&rec.timestamp);
    Some((level, GuiLogPayload::Entry { message, target, timestamp }))
}

/// What the backend forwards to its frontend for a line of the engine's
/// output.
#[derive(Debug, Clone)]
pub enum OutputEvent {
    Progress(GuiScanProgress),
    Log(LogMessageEvent),
}

/// The record levels whose messages are forwarded.
pub open spec fn forwarded_level(et: Seq<char>) -> bool {
    et == "info"@ || et == "warn"@ || et == "error"@ || et == "debug"@
}

/// `r` is what the backend forwards for the line `line` of standard output:
/// a progress report, or the message of a record of level info, warn, error
/// or debug; nothing for anything else.
pub open spec fn stdout_event_of(line: Seq<char>, r: Option<OutputEvent>) -> bool {
    match r {
        Some(OutputEvent::Progress(p)) => gui_log_event(line, "progress"@, GuiLogPayload::Progress(p)),
        Some(OutputEvent::Log(e)) => forwarded_level(e.level@) && exists|target: String, timestamp: String|
            gui_log_event(line, e.level@, GuiLogPayload::Entry { message: e.message, target, timestamp }),
        None => !is_gui_log_record(line) || exists|et: Seq<char>, payload: GuiLogPayload|
            gui_log_event(line, et, payload) && payload is Entry && !forwarded_level(et),
    }
}

/// The event for a line of the engine's standard output (see
/// [`stdout_event_of`]); a forwarded message is stamped with the current time.
#[verifier::spinoff_prover]
pub fn stdout_event(line: &str) -> (r: Option<OutputEvent>)
    ensures
        stdout_event_of(line@, r),
{
    match parse_json_log(line) {
        None => None,
        Some((et, payload)) => {
            let ec = chars_of(et.as_str());
            let ghost pl = payload;
            match payload {
                GuiLogPayload::Progress(p) => {
                    assert(et@ == "progress"@);
                    let r = Some(OutputEvent::Progress(p));
                    assert(stdout_event_of(line@, r));
                    r
                },
                GuiLogPayload::Entry { message, target, timestamp } => {
                    let forwarded = eq_str(&ec, "info") || eq_str(&ec, "warn") || eq_str(&ec, "error")
                        || eq_str(&ec, "debug");
                    if forwarded {
                        let e = LogMessageEvent { level: et, timestamp: crate::scan::session::now_rfc3339(), message };
                        assert(gui_log_event(
                            line@,
                            e.level@,
                            GuiLogPayload::Entry { message: e.message, target, timestamp },
                        ));
                        let r = Some(OutputEvent::Log(e));
                        assert(stdout_event_of(line@, r));
                        r
                    } else {
                        assert(!forwarded_level(et@));
                        assert(gui_log_event(line@, et@, pl) && pl is Entry);
                        None
                    }
                },
            }
        },
    }
}

/// The event for a line of the engine's standard error: an error message.
pub fn stderr_event(line: String) -> (r: LogMessageEvent)
    ensures
        r.level@ == "error"@,
        r.message == line,
{
    LogMessageEvent { level: string_of_str("error"), timestamp: crate::scan::session::now_rfc3339(), message: line }
}

} // verus!
