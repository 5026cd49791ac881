//! Scan handling of the command backend: the engine's command line, progress
//! lines of the legacy log format, run ids, and the scan state.

use vstd::prelude::*;

use super::types::{GuiScanConfig, GuiScanProgress, ScanHandle, ScanState, ScanStateChangedEvent, ScanStatus};
use crate::metadata::types::{assoc, lookup_value, pair_views};
use crate::scan::manager::{flag_if, flag_value_if, milli_string, milli_text, opt_u64_flag, usize_text, ArgList};
use crate::scan::progress::opt_view;
use crate::text::{
    chars_of, copy_range, dec, decimal_literal_ok, decimal_literal_ok_exec, eq_str, has_prefix,
    join, join_strings, parse_u64, parse_u64_spec, push_dec, split_ws, starts_with_str, string_of,
    string_of_str, string_views, views, ws_tokens,
};

verus! {

// ---------------------------------------------------------------------------
// `Some(N)` / `None` values
// ---------------------------------------------------------------------------

/// The value of an `Option` printed with `{:?}`: `Some(N)` gives `N`, `None`
/// and anything else nothing.
pub open spec fn option_u64_text(s: Option<Seq<char>>) -> Option<u64> {
    match s {
        None => None,
        Some(t) => if t == "None"@ {
            None
        } else if has_prefix(t, "Some("@) && t.len() >= 6 && t.last() == ')' {
            parse_u64_spec(t.subrange(5, t.len() - 1))
        } else {
            None
        },
    }
}

/// Parse `"Some(123)"` or `"None"` to `Option<u64>`.
pub fn parse_option_u64(s: Option<&str>) -> (r: Option<u64>)
    ensures
        r == option_u64_text(match s {
            Some(t) => Some(t@),
            None => None,
        }),
{
    let t = match s {
        Some(t) => t,
        None => return None,
    };
    let c = chars_of(t);
    proof {
        reveal_strlit("Some(");
    }
    if eq_str(&c, "None") {
        return None;
    }
    let n = c.len();
    if starts_with_str(&c, "Some(") && n >= 6 && c[n - 1] == ')' {
        let inner = copy_range(&c, 5, n - 1);
        parse_u64(&inner)
    } else {
        None
    }
}

/// `parse_option_u64` reads back what `{:?}` prints for an `Option<u64>`:
/// `Some(N)` gives `N`, and `None` (or no value) gives nothing.
pub proof fn lemma_option_u64_roundtrip(n: u64)
    ensures
        option_u64_text(Some("Some("@ + dec(n as nat) + ")"@)) == Some(n),
        option_u64_text(Some("None"@)) == None::<u64>,
        option_u64_text(None) == None::<u64>,
{
    reveal_strlit("Some(");
    reveal_strlit(")");
    reveal_strlit("None");
    crate::text::lemma_dec_digits(n as nat);
    crate::text::lemma_parse_u64_of_dec(n);
    let t = "Some("@ + dec(n as nat) + ")"@;
    assert(t[0] == 'S');
    assert(t != "None"@);
    assert(t.subrange(0, 5) =~= "Some("@);
    assert(t.subrange(5, t.len() - 1) =~= dec(n as nat));
    assert(t.last() == ')');
}

// ---------------------------------------------------------------------------
// Legacy progress lines
// ---------------------------------------------------------------------------

/// `key=value` of a token, split at its first `=`.
pub open spec fn kv_of(tok: Seq<char>) -> Option<(Seq<char>, Seq<char>)> {
    if exists|i: int| 0 <= i < tok.len() && tok[i] == '=' {
        let i = choose|i: int| 0 <= i < tok.len() && tok[i] == '=' && forall|j: int| 0 <= j < i ==> tok[j] != '=';
        Some((tok.take(i), tok.skip(i + 1)))
    } else {
        None
    }
}

/// The `key=value` pairs of the tokens, in order.
pub open spec fn kv_parts(toks: Seq<Seq<char>>) -> Seq<(Seq<char>, Seq<char>)>
    decreases toks.len(),
{
    if toks.len() == 0 {
        Seq::empty()
    } else {
        match kv_of(toks.last()) {
            Some(p) => kv_parts(toks.drop_last()).push(p),
            None => kv_parts(toks.drop_last()),
        }
    }
}

pub open spec fn u64_or_zero(v: Option<Seq<char>>) -> u64 {
    match v {
        Some(t) => match parse_u64_spec(t) {
            Some(n) => n,
            None => 0,
        },
        None => 0,
    }
}

pub open spec fn required_u64(v: Option<Seq<char>>) -> Option<u64> {
    match v {
        Some(t) => parse_u64_spec(t),
        None => None,
    }
}

/// `p` is the progress of a message `progress key=value ...`: the counters
/// `bytes_scanned`, `total_bytes`, `hits`, `files` and the number `rate_mib`
/// are required, the others default to 0 (the last value of a key counts).
pub open spec fn gui_progress_of(message: Seq<char>, p: GuiScanProgress) -> bool {
    let parts = kv_parts(ws_tokens(message.skip(9)));
    &&& has_prefix(message, "progress "@)
    &&& required_u64(assoc(parts, "bytes_scanned"@)) == Some(p.bytes_scanned)
    &&& required_u64(assoc(parts, "total_bytes"@)) == Some(p.total_bytes)
    &&& required_u64(assoc(parts, "hits"@)) == Some(p.hits_found)
    &&& required_u64(assoc(parts, "files"@)) == Some(p.files_carved)
    &&& assoc(parts, "rate_mib"@) == Some(p.throughput_mib@) && decimal_literal_ok(p.throughput_mib@)
    &&& p.chunks_processed == u64_or_zero(assoc(parts, "chunks_processed"@))
    &&& p.string_spans == u64_or_zero(assoc(parts, "string_spans"@))
    &&& p.artefacts_extracted == u64_or_zero(assoc(parts, "artefacts"@))
    &&& p.carve_errors == u64_or_zero(assoc(parts, "carve_errs"@))
    &&& p.metadata_errors == u64_or_zero(assoc(parts, "meta_errs"@))
    &&& p.sqlite_errors == u64_or_zero(assoc(parts, "sqlite_errs"@))
    &&& opt_view(p.elapsed_seconds) == (match assoc(parts, "elapsed_secs"@) {
        Some(t) => if decimal_literal_ok(t) {
            Some(t)
        } else {
            None
        },
        None => None,
    })
    &&& p.eta_seconds == option_u64_text(assoc(parts, "eta_secs"@))
}

/// Whether a message is a complete progress line.
pub open spec fn gui_progress_ok(message: Seq<char>) -> bool {
    let parts = kv_parts(ws_tokens(message.skip(9)));
    &&& has_prefix(message, "progress "@)
    &&& required_u64(assoc(parts, "bytes_scanned"@)) is Some
    &&& required_u64(assoc(parts, "total_bytes"@)) is Some
    &&& required_u64(assoc(parts, "hits"@)) is Some
    &&& required_u64(assoc(parts, "files"@)) is Some
    &&& assoc(parts, "rate_mib"@) is Some && decimal_literal_ok(assoc(parts, "rate_mib"@).unwrap())
}

fn split_kv(t: &Vec<char>) -> (r: Option<(String, String)>)
    ensures
        match r {
            Some((k, v)) => kv_of(t@) == Some((k@, v@)),
            None => kv_of(t@) is None,
        },
{
    let n = t.len();
    let mut i: usize = 0;
    while i < n
        invariant
            n == t@.len(),
            i <= n,
            forall|j: int| 0 <= j < i ==> t@[j] != '=',
        decreases n - i,
    {
        if t[i] == '=' {
            let k = copy_range(t, 0, i);
            let v = copy_range(t, i + 1, n);
            proof {
                let w = choose|w: int| 0 <= w < t@.len() && t@[w] == '=' && forall|j: int| 0 <= j < w ==> t@[j] != '=';
                assert(w == i) by {
                    if w < i {
                        assert(t@[w] != '=');
                    }
                    if w > i {
                        assert(t@[i as int] != '=');
                    }
                }
                assert(k@ =~= t@.take(i as int));
                assert(v@ =~= t@.skip(i + 1));
            }
            return Some((string_of(&k), string_of(&v)));
        }
        i = i + 1;
    }
    None
}

fn u64_or_zero_exec(v: Option<&String>) -> (r: u64)
    ensures
        r == u64_or_zero(match v {
            Some(t) => Some(t@),
            None => None,
        }),
{
    match v {
        Some(t) => {
            let c = chars_of(t.as_str());
            match parse_u64(&c) {
                Some(n) => n,
                None => 0,
            }
        },
        None => 0,
    }
}

fn required_u64_exec(v: Option<&String>) -> (r: Option<u64>)
    ensures
        r == required_u64(match v {
            Some(t) => Some(t@),
            None => None,
        }),
{
    match v {
        Some(t) => {
            let c = chars_of(t.as_str());
            parse_u64(&c)
        },
        None => None,
    }
}

/// Parse a progress line of the legacy log format, e.g.
/// `progress bytes_scanned=1234 total_bytes=5678 pct=21.7 hits=10 files=5 rate_mib=123.45 eta_secs=Some(60)`.
pub fn parse_progress_message(message: &str) -> (r: Option<GuiScanProgress>)
    ensures
        match r {
            Some(p) => gui_progress_of(message@, p),
            None => !gui_progress_ok(message@),
        },
{
    let m = chars_of(message);
    proof {
        reveal_strlit("progress ");
    }
    if !starts_with_str(&m, "progress ") {
        return None;
    }
    let body = copy_range(&m, 9, m.len());
    assert(body@ =~= message@.skip(9));
    let toks = split_ws(&body);
    let ghost tv = views(toks@);
    let mut parts: Vec<(String, String)> = Vec::new();
    let n = toks.len();
    proof {
        assert(tv.take(0) =~= Seq::<Seq<char>>::empty());
    }
    for i in 0..n
        invariant
            n == toks@.len(),
            tv == views(toks@),
            pair_views(parts@) == kv_parts(tv.take(i as int)),
    {
        proof {
            assert(tv.take(i + 1).drop_last() =~= tv.take(i as int));
            assert(tv.take(i + 1).last() == toks@[i as int]@);
        }
        let ghost before = pair_views(parts@);
        match split_kv(&toks[i]) {
            Some(kv) => {
                parts.push(kv);
                proof {
                    assert(pair_views(parts@) =~= before.push((kv.0@, kv.1@)));
                }
            },
            None => {},
        }
    }
    proof {
        assert(tv.take(n as int) =~= tv);
    }
    let bytes_scanned = match required_u64_exec(lookup_value(&parts, "bytes_scanned")) {
        Some(v) => v,
        None => return None,
    };
    let total_bytes = match required_u64_exec(lookup_value(&parts, "total_bytes")) {
        Some(v) => v,
        None => return None,
    };
    let hits_found = match required_u64_exec(lookup_value(&parts, "hits")) {
        Some(v) => v,
        None => return None,
    };
    let files_carved = match required_u64_exec(lookup_value(&parts, "files")) {
        Some(v) => v,
        None => return None,
    };
    let throughput_mib = match lookup_value(&parts, "rate_mib") {
        Some(t) => {
            let c = chars_of(t.as_str());
            if decimal_literal_ok_exec(&c) {
                t.clone()
            } else {
                return None;
            }
        },
        None => return None,
    };
    let elapsed_seconds = match lookup_value(&parts, "elapsed_secs") {
        Some(t) => {
            let c = chars_of(t.as_str());
            if decimal_literal_ok_exec(&c) {
                Some(t.clone())
            } else {
                None
            }
        },
        None => None,
    };
    let eta_seconds = match lookup_value(&parts, "eta_secs") {
        Some(t) => parse_option_u64(Some(t.as_str())),
        None => parse_option_u64(None),
    };
    Some(GuiScanProgress {
        bytes_scanned,
        total_bytes,
        chunks_processed: u64_or_zero_exec(lookup_value(&parts, "chunks_processed")),
        hits_found,
        files_carved,
        string_spans: u64_or_zero_exec(lookup_value(&parts, "string_spans")),
        artefacts_extracted: u64_or_zero_exec(lookup_value(&parts, "artefacts")),
        carve_errors: u64_or_zero_exec(lookup_value(&parts, "carve_errs")),
        metadata_errors: u64_or_zero_exec(lookup_value(&parts, "meta_errs")),
        sqlite_errors: u64_or_zero_exec(lookup_value(&parts, "sqlite_errs")),
        elapsed_seconds,
        throughput_mib,
        eta_seconds,
    })
}

// ---------------------------------------------------------------------------
// Command line
// ---------------------------------------------------------------------------

pub open spec fn gui_head(c: GuiScanConfig) -> Seq<Seq<char>> {
    seq![
        "--input"@,
        c.input_path@,
        "--output"@,
        c.output_path@,
        "--log-format"@,
        "json"@,
        "--progress-interval-secs"@,
        "1"@,
        "--metadata-backend"@,
        c.metadata_backend@,
    ]
}

pub open spec fn gui_selection(c: GuiScanConfig) -> Seq<Seq<char>> {
    flag_value_if(c.file_types@.len() > 0, "--types"@, join(string_views(c.file_types@), ","@))
        + flag_if(c.disable_zip, "--disable-zip"@) + flag_if(c.scan_strings, "--scan-strings"@)
        + flag_if(c.scan_utf16, "--scan-utf16"@) + flag_if(!c.scan_urls, "--no-scan-urls"@)
        + flag_if(!c.scan_emails, "--no-scan-emails"@) + flag_if(!c.scan_phones, "--no-scan-phones"@)
        + flag_value_if(c.string_min_len != 8, "--string-min-len"@, dec(c.string_min_len as nat))
        + flag_if(c.gpu_enabled, "--gpu"@)
}

pub open spec fn gui_entropy(c: GuiScanConfig) -> Seq<Seq<char>> {
    if c.scan_entropy {
        seq!["--scan-entropy"@] + flag_value_if(
            c.entropy_window_bytes != 256,
            "--entropy-window-bytes"@,
            dec(c.entropy_window_bytes as nat),
        ) + flag_value_if(
            c.entropy_threshold_milli != 7500,
            "--entropy-threshold"@,
            milli_text(c.entropy_threshold_milli as nat),
        )
    } else {
        Seq::empty()
    }
}

pub open spec fn gui_rest(c: GuiScanConfig) -> Seq<Seq<char>> {
    flag_if(c.scan_sqlite_pages, "--scan-sqlite-pages"@) + (if c.compute_evidence_hash {
        seq!["--compute-evidence-sha256"@]
    } else {
        match c.evidence_sha256 {
            Some(h) => seq!["--evidence-sha256"@, h@],
            None => Seq::empty(),
        }
    }) + opt_u64_flag("--max-bytes"@, c.max_bytes) + opt_u64_flag("--max-chunks"@, c.max_chunks)
        + opt_u64_flag("--max-files"@, c.max_files) + opt_u64_flag("--max-memory-mib"@, c.max_memory_mib)
        + flag_value_if(c.chunk_size_mib != 64, "--chunk-size-mib"@, dec(c.chunk_size_mib as nat))
        + flag_value_if(c.overlap_kib != 4, "--overlap-kib"@, dec(c.overlap_kib as nat))
        + flag_value_if(c.workers > 0, "--workers"@, dec(c.workers as nat))
}

/// The engine's arguments for a frontend configuration, in emission order;
/// options at their defaults are left out.
pub open spec fn gui_cli_args(c: GuiScanConfig) -> Seq<Seq<char>> {
    gui_head(c) + gui_selection(c) + gui_entropy(c) + gui_rest(c)
}

#[verifier::spinoff_prover]
fn emit_gui_head(a: &mut ArgList, c: &GuiScanConfig)
    ensures
        final(a).model() == old(a).model() + gui_head(*c),
{
    a.value(string_of_str("--input"));
    a.value(c.input_path.clone());
    a.value(string_of_str("--output"));
    a.value(c.output_path.clone());
    a.value(string_of_str("--log-format"));
    a.value(string_of_str("json"));
    a.value(string_of_str("--progress-interval-secs"));
    a.value(string_of_str("1"));
    a.value(string_of_str("--metadata-backend"));
    a.value(c.metadata_backend.clone());
    assert(a.model() =~= old(a).model() + gui_head(*c));
}

/// The file types and the first string-scanning flags of the selection.
pub open spec fn gui_selection_types(c: GuiScanConfig) -> Seq<Seq<char>> {
    flag_value_if(c.file_types@.len() > 0, "--types"@, join(string_views(c.file_types@), ","@))
        + flag_if(c.disable_zip, "--disable-zip"@) + flag_if(c.scan_strings, "--scan-strings"@)
        + flag_if(c.scan_utf16, "--scan-utf16"@) + flag_if(!c.scan_urls, "--no-scan-urls"@)
}

#[verifier::spinoff_prover]
fn emit_gui_selection_types(a: &mut ArgList, c: &GuiScanConfig)
    ensures
        final(a).model() == old(a).model() + gui_selection_types(*c),
{
    let ghost m0 = a.model();
    let types = string_of(&join_strings(&c.file_types, ","));
    a.flag_value(c.file_types.len() > 0, "--types", types);
    let ghost mut acc = flag_value_if(c.file_types@.len() > 0, "--types"@, join(string_views(c.file_types@), ","@));
    assert(a.model() == m0 + acc);
    a.flag(c.disable_zip, "--disable-zip");
    proof {
        vstd::seq_lib::lemma_concat_associative(m0, acc, flag_if(c.disable_zip, "--disable-zip"@));
        acc = acc + flag_if(c.disable_zip, "--disable-zip"@);
    }
    assert(a.model() == m0 + acc);
    a.flag(c.scan_strings, "--scan-strings");
    proof {
        vstd::seq_lib::lemma_concat_associative(m0, acc, flag_if(c.scan_strings, "--scan-strings"@));
        acc = acc + flag_if(c.scan_strings, "--scan-strings"@);
    }
    assert(a.model() == m0 + acc);
    a.flag(c.scan_utf16, "--scan-utf16");
    proof {
        vstd::seq_lib::lemma_concat_associative(m0, acc, flag_if(c.scan_utf16, "--scan-utf16"@));
        acc = acc + flag_if(c.scan_utf16, "--scan-utf16"@);
    }
    assert(a.model() == m0 + acc);
    a.flag(!c.scan_urls, "--no-scan-urls");
    proof {
        vstd::seq_lib::lemma_concat_associative(m0, acc, flag_if(!c.scan_urls, "--no-scan-urls"@));
        acc = acc + flag_if(!c.scan_urls, "--no-scan-urls"@);
    }
    assert(a.model() == m0 + acc);
    assert(acc == gui_selection_types(*c));
}

#[verifier::spinoff_prover]
fn emit_gui_selection(a: &mut ArgList, c: &GuiScanConfig)
    ensures
        final(a).model() == old(a).model() + gui_selection(*c),
{
    let ghost m0 = a.model();
    emit_gui_selection_types(a, c);
    let ghost mut acc = gui_selection_types(*c);
    assert(a.model() == m0 + acc);
    a.flag(!c.scan_emails, "--no-scan-emails");
    proof {
        vstd::seq_lib::lemma_concat_associative(m0, acc, flag_if(!c.scan_emails, "--no-scan-emails"@));
        acc = acc + flag_if(!c.scan_emails, "--no-scan-emails"@);
    }
    assert(a.model() == m0 + acc);
    a.flag(!c.scan_phones, "--no-scan-phones");
    proof {
        vstd::seq_lib::lemma_concat_associative(m0, acc, flag_if(!c.scan_phones, "--no-scan-phones"@));
        acc = acc + flag_if(!c.scan_phones, "--no-scan-phones"@);
    }
    assert(a.model() == m0 + acc);
    a.flag_value(c.string_min_len != 8, "--string-min-len", usize_text(c.string_min_len));
    proof {
        vstd::seq_lib::lemma_concat_associative(m0, acc, flag_value_if(c.string_min_len != 8, "--string-min-len"@, dec(c.string_min_len as nat)));
        acc = acc + flag_value_if(c.string_min_len != 8, "--string-min-len"@, dec(c.string_min_len as nat));
    }
    assert(a.model() == m0 + acc);
    a.flag(c.gpu_enabled, "--gpu");
    proof {
        vstd::seq_lib::lemma_concat_associative(m0, acc, flag_if(c.gpu_enabled, "--gpu"@));
        acc = acc + flag_if(c.gpu_enabled, "--gpu"@);
    }
    assert(a.model() == m0 + acc);
    assert(acc == gui_selection(*c));
}

#[verifier::spinoff_prover]
fn emit_gui_entropy(a: &mut ArgList, c: &GuiScanConfig)
    ensures
        final(a).model() == old(a).model() + gui_entropy(*c),
{
    let ghost m0 = a.model();
    if c.scan_entropy {
        a.value(string_of_str("--scan-entropy"));
        a.flag_value(c.entropy_window_bytes != 256, "--entropy-window-bytes", usize_text(c.entropy_window_bytes));
        a.flag_value(c.entropy_threshold_milli != 7500, "--entropy-threshold", milli_string(c.entropy_threshold_milli));
    }
    assert(a.model() =~= m0 + gui_entropy(*c));
}

#[verifier::spinoff_prover]
fn emit_gui_rest(a: &mut ArgList, c: &GuiScanConfig)
    ensures
        final(a).model() == old(a).model() + gui_rest(*c),
{
    let ghost m0 = a.model();
    a.flag(c.scan_sqlite_pages, "--scan-sqlite-pages");
    let ghost mut acc = flag_if(c.scan_sqlite_pages, "--scan-sqlite-pages"@);
    assert(a.model() == m0 + acc);
    let ghost ev = if c.compute_evidence_hash {
        seq!["--compute-evidence-sha256"@]
    } else {
        match &c.evidence_sha256 {
            Some(h) => seq!["--evidence-sha256"@, h@],
            None => Seq::<Seq<char>>::empty(),
        }
    };
    let ghost m1 = a.model();
    if c.compute_evidence_hash {
        a.value(string_of_str("--compute-evidence-sha256"));
    } else {
        match &c.evidence_sha256 {
            Some(h) => {
                a.value(string_of_str("--evidence-sha256"));
                a.value(h.clone());
            },
            None => {},
        }
    }
    proof {
        assert(a.model() =~= m1 + ev);
        vstd::seq_lib::lemma_concat_associative(m0, acc, ev);
        acc = acc + ev;
    }
    assert(a.model() == m0 + acc);
    a.opt_u64("--max-bytes", c.max_bytes);
    proof {
        vstd::seq_lib::lemma_concat_associative(m0, acc, opt_u64_flag("--max-bytes"@, c.max_bytes));
        acc = acc + opt_u64_flag("--max-bytes"@, c.max_bytes);
    }
    assert(a.model() == m0 + acc);
    a.opt_u64("--max-chunks", c.max_chunks);
    proof {
        vstd::seq_lib::lemma_concat_associative(m0, acc, opt_u64_flag("--max-chunks"@, c.max_chunks));
        acc = acc + opt_u64_flag("--max-chunks"@, c.max_chunks);
    }
    assert(a.model() == m0 + acc);
    a.opt_u64("--max-files", c.max_files);
    proof {
        vstd::seq_lib::lemma_concat_associative(m0, acc, opt_u64_flag("--max-files"@, c.max_files));
        acc = acc + opt_u64_flag("--max-files"@, c.max_files);
    }
    assert(a.model() == m0 + acc);
    a.opt_u64("--max-memory-mib", c.max_memory_mib);
    proof {
        vstd::seq_lib::lemma_concat_associative(m0, acc, opt_u64_flag("--max-memory-mib"@, c.max_memory_mib));
        acc = acc + opt_u64_flag("--max-memory-mib"@, c.max_memory_mib);
    }
    assert(a.model() == m0 + acc);
    a.flag_value(c.chunk_size_mib != 64, "--chunk-size-mib", crate::text::dec_string(c.chunk_size_mib));
    proof {
        vstd::seq_lib::lemma_concat_associative(m0, acc, flag_value_if(c.chunk_size_mib != 64, "--chunk-size-mib"@, dec(c.chunk_size_mib as nat)));
        acc = acc + flag_value_if(c.chunk_size_mib != 64, "--chunk-size-mib"@, dec(c.chunk_size_mib as nat));
    }
    assert(a.model() == m0 + acc);
    a.flag_value(c.overlap_kib != 4, "--overlap-kib", crate::text::dec_string(c.overlap_kib));
    proof {
        vstd::seq_lib::lemma_concat_associative(m0, acc, flag_value_if(c.overlap_kib != 4, "--overlap-kib"@, dec(c.overlap_kib as nat)));
        acc = acc + flag_value_if(c.overlap_kib != 4, "--overlap-kib"@, dec(c.overlap_kib as nat));
    }
    assert(a.model() == m0 + acc);
    a.flag_value(c.workers > 0, "--workers", usize_text(c.workers));
    proof {
        vstd::seq_lib::lemma_concat_associative(m0, acc, flag_value_if(c.workers > 0, "--workers"@, dec(c.workers as nat)));
        acc = acc + flag_value_if(c.workers > 0, "--workers"@, dec(c.workers as nat));
    }
    assert(a.model() == m0 + acc);
    assert(acc == gui_rest(*c));
}

/// Build the engine's command-line arguments from a frontend configuration.
pub fn build_cli_args(config: &GuiScanConfig) -> (r: Vec<String>)
    ensures
        string_views(r@) == gui_cli_args(*config),
{
    let mut a = ArgList { args: Vec::new() };
    assert(a.model() =~= Seq::<Seq<char>>::empty());
    emit_gui_head(&mut a, config);
    emit_gui_selection(&mut a, config);
    emit_gui_entropy(&mut a, config);
    emit_gui_rest(&mut a, config);
    assert(a.model() =~= gui_cli_args(*config));
    a.args
}

// ---------------------------------------------------------------------------
// Run ids
// ---------------------------------------------------------------------------

/// The current UTC time as `%Y%m%d_%H%M%S` (`chrono`). It depends on the
/// clock, so nothing is promised of it.
#[verifier::external_body]
fn compact_utc_timestamp() -> (r: String) {
    chrono::Utc::now().format("%Y%m%d_%H%M%S").to_string()
}

/// A random `u32` (`rand`). Nothing is promised of its value.
#[verifier::external_body]
fn random_u32() -> (r: u32) {
    rand::random::<u32>()
}

pub open spec fn hex_digit(d: nat) -> char {
    if d < 10 {
        (48 + d) as char
    } else {
        (87 + d) as char
    }
}

/// The hexadecimal digits of `n`, zero-padded to `width` digits.
pub open spec fn hex6_tail(n: nat, width: nat) -> Seq<char>
    decreases n + width,
{
    if n < 16 && width <= 1 {
        seq![hex_digit(n)]
    } else if width <= 1 {
        hex6_tail(n / 16, 0) + seq![hex_digit(n % 16)]
    } else {
        hex6_tail(n / 16, (width - 1) as nat) + seq![hex_digit(n % 16)]
    }
}

fn push_hex(out: &mut Vec<char>, n: u32, width: u32)
    ensures
        final(out)@ == old(out)@ + hex6_tail(n as nat, width as nat),
    decreases n + width,
{
    if n < 16 && width <= 1 {
        let d = if n < 10 { (48 + n) as u8 as char } else { (87 + n) as u8 as char };
        out.push(d);
    } else {
        let w = if width <= 1 { 0 } else { width - 1 };
        push_hex(out, n / 16, w);
        let m = n % 16;
        let d = if m < 10 { (48 + m) as u8 as char } else { (87 + m) as u8 as char };
        out.push(d);
    }
}

/// `<timestamp>_<hex>`: the number reduced below `0xFFFFFF` and written as
/// (at least) six lower-case hex digits, as `{:06x}` does.
pub open spec fn run_id_text(timestamp: Seq<char>, random: u32) -> Seq<char> {
    timestamp + "_"@ + hex6_tail((random % 0xFFFFFF) as nat, 6)
}

/// A run id from a timestamp and a random number.
pub fn run_id_from(timestamp: &str, random: u32) -> (r: String)
    ensures
        r@ == run_id_text(timestamp@, random),
{
    let mut out = chars_of(timestamp);
    out.push('_');
    push_hex(&mut out, random % 0xFFFFFF, 6);
    proof {
        reveal_strlit("_");
    }
    string_of(&out)
}

/// Generate a run id from the clock and a random number.
pub fn generate_run_id() -> (r: String)
    ensures
        exists|t: Seq<char>, x: u32| r@ == #[trigger] run_id_text(t, x),
{
    let t = compact_utc_timestamp();
    let x = random_u32();
    run_id_from(t.as_str(), x)
}

// ---------------------------------------------------------------------------
// Extensions
// ---------------------------------------------------------------------------

/// What `Path::extension` gives for a path: the part of its file name after
/// the last `.`, if the name has one not at its start.
pub uninterp spec fn path_extension_of(p: Seq<char>) -> Option<Seq<char>>;

/// `Path::extension` (read back as text): the result is the name above
/// applied to the path.
#[verifier::external_body]
pub(crate) fn path_extension(path: &str) -> (r: Option<String>)
    ensures
        opt_view(r) == path_extension_of(path@),
{
    std::path::Path::new(path).extension().and_then(|e| e.to_str()).map(String::from)
}

/// The extension of a path, or empty text when it has none.
pub fn get_extension(path: &str) -> (r: String)
    ensures
        r@ == (match path_extension_of(path@) {
            Some(e) => e,
            None => Seq::<char>::empty(),
        }),
{
    match path_extension(path) {
        Some(e) => e,
        None => String::new(),
    }
}

// ---------------------------------------------------------------------------
// Scan state
// ---------------------------------------------------------------------------

/// Manages a single scan operation of the command backend.
#[derive(Debug)]
pub struct ScanManager {
    state: ScanState,
    run_id: Option<String>,
    started_at: Option<String>,
    cancel_requested: bool,
    child_pid: Option<u32>,
    last_progress: Option<GuiScanProgress>,
    error: Option<String>,
    run_output_dir: Option<String>,
}

pub open spec fn startable(s: ScanState) -> bool {
    s == ScanState::Idle || s == ScanState::Completed || s == ScanState::Failed || s == ScanState::Cancelled
}

impl ScanManager {
    pub closed spec fn state_of(&self) -> ScanState {
        self.state
    }

    pub closed spec fn run_id_of(&self) -> Option<Seq<char>> {
        opt_view(self.run_id)
    }

    pub closed spec fn error_of(&self) -> Option<Seq<char>> {
        opt_view(self.error)
    }

    pub closed spec fn pid_of(&self) -> Option<u32> {
        self.child_pid
    }

    pub closed spec fn cancel_requested_of(&self) -> bool {
        self.cancel_requested
    }

    pub closed spec fn output_dir_of(&self) -> Option<Seq<char>> {
        opt_view(self.run_output_dir)
    }

    pub closed spec fn has_progress(&self) -> bool {
        self.last_progress is Some
    }

    pub closed spec fn is_reset(&self) -> bool {
        &&& self.state == ScanState::Idle
        &&& self.run_id is None && self.started_at is None && !self.cancel_requested
        &&& self.child_pid is None && self.last_progress is None && self.error is None
        &&& self.run_output_dir is None
    }

    pub fn new() -> (r: Self)
        ensures
            r.is_reset(),
            r.state_of() == ScanState::Idle,
    {
        ScanManager {
            state: ScanState::Idle,
            run_id: None,
            started_at: None,
            cancel_requested: false,
            child_pid: None,
            last_progress: None,
            error: None,
            run_output_dir: None,
        }
    }

    /// Current scan status.
    pub fn get_status(&self) -> (r: ScanStatus)
        ensures
            r.state == self.state_of(),
            opt_view(r.run_id) == self.run_id_of(),
            opt_view(r.error) == self.error_of(),
            (r.progress is Some) == self.has_progress(),
    {
        ScanStatus {
            state: self.state,
            run_id: self.run_id.clone(),
            started_at: self.started_at.clone(),
            progress: self.last_progress.clone(),
            error: self.error.clone(),
        }
    }

    /// Whether a scan can be started (none is running or paused).
    pub fn can_start(&self) -> (r: bool)
        ensures
            r == startable(self.state_of()),
    {
        match self.state {
            ScanState::Idle | ScanState::Completed | ScanState::Failed | ScanState::Cancelled => true,
            _ => false,
        }
    }

    /// Checks that a scan may start; whether the input exists is up to the disk.
    pub fn check_start(&self, config: &GuiScanConfig) -> (r: Result<(), String>)
        ensures
            !startable(self.state_of()) ==> r is Err && r->Err_0@ == "Cannot start scan: a scan is already in progress"@,
            startable(self.state_of()) ==> (r is Ok || (r is Err && r->Err_0@ == "Input file does not exist: "@ + config.input_path@)),
    {
        if !self.can_start() {
            return Err(string_of_str("Cannot start scan: a scan is already in progress"));
        }
        if !crate::scan::path_exists(config.input_path.as_str()) {
            let mut m = chars_of("Input file does not exist: ");
            crate::text::append_str(&mut m, config.input_path.as_str());
            return Err(string_of(&m));
        }
        Ok(())
    }

    /// Records the start of run `run_id` at `started_at`, writing under
    /// `output_path/run_id`; returns the run's handle.
    pub fn begin(&mut self, config: &GuiScanConfig, run_id: String, started_at: String) -> (r: ScanHandle)
        ensures
            final(self).state_of() == ScanState::Running,
            final(self).run_id_of() == Some(run_id@),
            final(self).error_of() is None,
            !final(self).has_progress(),
            !final(self).cancel_requested_of(),
            final(self).pid_of() == old(self).pid_of(),
            final(self).output_dir_of() == Some(crate::scan::join_path(config.output_path@, run_id@)),
            r.run_id@ == run_id@,
    {
        let dir = crate::scan::join_path_exec(config.output_path.as_str(), run_id.as_str());
        self.state = ScanState::Running;
        self.run_id = Some(run_id.clone());
        self.started_at = Some(started_at);
        self.error = None;
        self.last_progress = None;
        self.cancel_requested = false;
        self.run_output_dir = Some(dir);
        ScanHandle { run_id }
    }

    /// Records the spawned process.
    pub fn set_child(&mut self, pid: Option<u32>)
        ensures
            final(self).pid_of() == pid,
            final(self).state_of() == old(self).state_of(),
            final(self).run_id_of() == old(self).run_id_of(),
            final(self).error_of() == old(self).error_of(),
    {
        self.child_pid = pid;
    }

    /// Stop the current scan: refused unless one is running; otherwise the
    /// cancel flag is set, the state becomes `Cancelled`, and the process to
    /// signal is returned.
    pub fn stop(&mut self) -> (r: Result<Option<u32>, String>)
        ensures
            old(self).state_of() != ScanState::Running ==> r is Err && r->Err_0@ == "No scan in progress to stop"@
                && final(self).state_of() == old(self).state_of(),
            old(self).state_of() == ScanState::Running ==> r == Ok::<Option<u32>, String>(old(self).pid_of())
                && final(self).state_of() == ScanState::Cancelled && final(self).cancel_requested_of(),
    {
        if self.state != ScanState::Running {
            return Err(string_of_str("No scan in progress to stop"));
        }
        self.cancel_requested = true;
        self.state = ScanState::Cancelled;
        Ok(self.child_pid)
    }

    /// Update progress (called from the progress parser).
    pub fn update_progress(&mut self, progress: GuiScanProgress)
        ensures
            final(self).has_progress(),
            final(self).state_of() == old(self).state_of(),
    {
        self.last_progress = Some(progress);
    }

    /// Mark the scan as completed.
    pub fn mark_completed(&mut self)
        ensures
            final(self).state_of() == ScanState::Completed,
            final(self).pid_of() is None,
            final(self).error_of() == old(self).error_of(),
    {
        self.state = ScanState::Completed;
        self.child_pid = None;
    }

    /// Mark the scan as failed.
    pub fn mark_failed(&mut self, error: String)
        ensures
            final(self).state_of() == ScanState::Failed,
            final(self).error_of() == Some(error@),
            final(self).pid_of() is None,
    {
        self.state = ScanState::Failed;
        self.error = Some(error);
        self.child_pid = None;
    }

    /// Reset the manager.
    pub fn reset(&mut self)
        ensures
            final(self).is_reset(),
            final(self).state_of() == ScanState::Idle,
    {
        self.state = ScanState::Idle;
        self.run_id = None;
        self.started_at = None;
        self.cancel_requested = false;
        self.child_pid = None;
        self.last_progress = None;
        self.error = None;
        self.run_output_dir = None;
    }
}

impl Default for ScanManager {
    fn default() -> (r: Self)
        ensures
            r.is_reset(),
    {
        ScanManager::new()
    }
}

/// The state event sent when the engine's process has ended: cancelled,
/// completed (exit code 0), failed with its exit code, or failed with the
/// error met while handling its output.
pub fn completion_event(cancelled: bool, result: Result<i32, String>) -> (r: ScanStateChangedEvent)
    ensures
        match result {
            Ok(code) => if cancelled {
                r.state == ScanState::Cancelled && opt_view(r.message) == Some("Scan cancelled by user"@)
            } else if code == 0 {
                r.state == ScanState::Completed && opt_view(r.message) == Some("Scan completed successfully"@)
            } else {
                r.state == ScanState::Failed && opt_view(r.message) == Some("Process exited with code "@ + crate::scan::session::signed_text(code))
            },
            Err(e) => r.state == ScanState::Failed && opt_view(r.message) == Some(e@),
        },
{
    match result {
        Ok(code) => {
            if cancelled {
                ScanStateChangedEvent { state: ScanState::Cancelled, message: Some(string_of_str("Scan cancelled by user")) }
            } else if code == 0 {
                ScanStateChangedEvent { state: ScanState::Completed, message: Some(string_of_str("Scan completed successfully")) }
            } else {
                let mut m = chars_of("Process exited with code ");
                if code < 0 {
                    m.push('-');
                    let v: i64 = -(code as i64);
                    push_dec(&mut m, v as u64);
                } else {
                    push_dec(&mut m, code as u64);
                }
                proof {
                    reveal_strlit("-");
                }
                ScanStateChangedEvent { state: ScanState::Failed, message: Some(string_of(&m)) }
            }
        },
        Err(e) => ScanStateChangedEvent { state: ScanState::Failed, message: Some(e) },
    }
}

// ---------------------------------------------------------------------------
// Devices
// ---------------------------------------------------------------------------

/// Whether the device listing of the command backend skips an entry (loop
/// devices, RAM disks, device-mapper nodes).
pub open spec fn gui_skipped(name: Seq<char>) -> bool {
    has_prefix(name, "loop"@) || has_prefix(name, "ram"@) || has_prefix(name, "dm-"@)
}

pub open spec fn gui_skip_pred() -> spec_fn(crate::devices::RawBlockDevice) -> bool {
    |e: crate::devices::RawBlockDevice| !gui_skipped(e.name@)
}

/// `d` is what the command backend reports for `/sys/block` entry `e`: its
/// `/dev` path, the size from the sector count (wrapping on overflow, 0 when
/// unreadable) and the trimmed model text when readable.
pub open spec fn gui_device_of(d: super::types::BlockDevice, e: crate::devices::RawBlockDevice) -> bool {
    &&& d.path@ == "/dev/"@ + e.name@
    &&& d.name@ == e.name@
    &&& d.size_bytes == (match e.size_text {
        Some(t) => {
            let sectors = match parse_u64_spec(crate::text::trim(t@)) {
                Some(n) => n,
                None => 0,
            };
            ((sectors as nat * 512) % 0x1_0000_0000_0000_0000) as u64
        },
        None => 0,
    })
    &&& opt_view(d.model) == (match e.model_text {
        Some(m) => Some(crate::text::trim(m@)),
        None => None,
    })
}

/// The devices the command backend lists, in the order of the entries.
pub fn list_block_devices(entries: Vec<crate::devices::RawBlockDevice>) -> (r: Vec<super::types::BlockDevice>)
    ensures
        r@.len() == entries@.filter(gui_skip_pred()).len(),
        forall|i: int| 0 <= i < r@.len() ==> gui_device_of(#[trigger] r@[i], entries@.filter(gui_skip_pred())[i]),
{
    let mut out: Vec<super::types::BlockDevice> = Vec::new();
    let n = entries.len();
    let ghost all = entries@;
    proof {
        assert(all.take(0) =~= Seq::<crate::devices::RawBlockDevice>::empty());
        reveal(Seq::filter);
    }
    for i in 0..n
        invariant
            n == all.len(),
            all == entries@,
            out@.len() == all.take(i as int).filter(gui_skip_pred()).len(),
            forall|k: int| 0 <= k < out@.len() ==> gui_device_of(#[trigger] out@[k], all.take(i as int).filter(gui_skip_pred())[k]),
    {
        let e = &entries[i];
        proof {
            assert(all.take(i + 1) =~= all.take(i as int).push(all[i as int]));
            all.take(i as int).lemma_filter_push(all[i as int], gui_skip_pred());
        }
        let name = chars_of(e.name.as_str());
        proof {
            reveal_strlit("loop");
            reveal_strlit("ram");
            reveal_strlit("dm-");
        }
        let skip = starts_with_str(&name, "loop") || starts_with_str(&name, "ram") || starts_with_str(&name, "dm-");
        if !skip {
            let mut path = chars_of("/dev/");
            crate::text::append_str(&mut path, e.name.as_str());
            let size_bytes = match &e.size_text {
                Some(t) => {
                    let c = chars_of(t.as_str());
                    let tr = crate::text::trim_ws(&c);
                    let sectors = match parse_u64(&tr) {
                        Some(v) => v,
                        None => 0,
                    };
                    sectors.wrapping_mul(512)
                },
                None => 0,
            };
            let model = match &e.model_text {
                Some(m) => {
                    let c = chars_of(m.as_str());
                    Some(string_of(&crate::text::trim_ws(&c)))
                },
                None => None,
            };
            let d = super::types::BlockDevice { path: string_of(&path), name: string_of_str(e.name.as_str()), size_bytes, model };
            proof {
                reveal_strlit("/dev/");
                assert(gui_device_of(d, all[i as int]));
            }
            out.push(d);
        }
    }
    proof {
        assert(all.take(n as int) =~= all);
    }
    out
}

} // verus!
