//! Scan session bookkeeping: the SwiftBeaver command line, the state machine
//! that consumes messages from the scan thread, and the turning of log lines
//! into those messages.

use vstd::prelude::*;

use crate::config::{backend_name, nonempty_opt, ScanConfig};
use crate::text::{
    append_chars, append_str, dec, is_digit, join, join_strings, push_dec, string_of, string_of_str,
    string_views,
};

verus! {

pub open spec fn flag_if(cond: bool, flag: Seq<char>) -> Seq<Seq<char>> {
    if cond {
        seq![flag]
    } else {
        seq![]
    }
}

pub open spec fn flag_value_if(cond: bool, flag: Seq<char>, value: Seq<char>) -> Seq<Seq<char>> {
    if cond {
        seq![flag, value]
    } else {
        seq![]
    }
}

pub open spec fn opt_u64_flag(flag: Seq<char>, v: Option<u64>) -> Seq<Seq<char>> {
    match v {
        Some(n) => seq![flag, dec(n as nat)],
        None => seq![],
    }
}

pub open spec fn opt_text_flag(flag: Seq<char>, v: Option<String>) -> Seq<Seq<char>> {
    match nonempty_opt(v) {
        Some(t) => seq![flag, t],
        None => seq![],
    }
}

/// Three decimal digits of `f` (< 1000) without trailing zeros.
pub open spec fn milli_fraction(f: nat) -> Seq<char> {
    if f % 100 == 0 {
        dec(f / 100)
    } else if f % 10 == 0 {
        (if f < 100 {
            "0"@
        } else {
            Seq::empty()
        }) + dec(f / 10)
    } else {
        (if f < 10 {
            "00"@
        } else if f < 100 {
            "0"@
        } else {
            Seq::empty()
        }) + dec(f)
    }
}

/// Shortest decimal rendering of `m / 1000`, as `Display` prints such a number:
/// no fractional part for whole numbers, otherwise no trailing zeros.
pub open spec fn milli_text(m: nat) -> Seq<char> {
    if m % 1000 == 0 {
        dec(m / 1000)
    } else {
        dec(m / 1000) + "."@ + milli_fraction(m % 1000)
    }
}

pub open spec fn cli_head(c: ScanConfig) -> Seq<Seq<char>> {
    seq![
        "--input"@,
        c.input_path@,
        "--output"@,
        c.output_path@,
        "--log-format"@,
        "json"@,
        "--progress-interval-secs"@,
        "1"@,
        "--metadata-backend"@,
        backend_name(c.metadata_backend),
    ]
}

/// Config file, file types and string scanning.
pub open spec fn cli_selection(c: ScanConfig) -> Seq<Seq<char>> {
    opt_text_flag("--config-path"@, c.config_path) + flag_value_if(
        c.file_types@.len() > 0,
        "--types"@,
        join(string_views(c.file_types@), ","@),
    ) + flag_if(c.disable_zip, "--disable-zip"@) + flag_if(c.scan_strings, "--scan-strings"@)
        + flag_if(c.scan_utf16, "--scan-utf16"@) + flag_if(!c.scan_urls, "--no-scan-urls"@)
        + flag_if(!c.scan_emails, "--no-scan-emails"@) + flag_if(
        !c.scan_phones,
        "--no-scan-phones"@,
    ) + flag_value_if(
        c.string_min_len > 0 && c.string_min_len != 8,
        "--string-min-len"@,
        dec(c.string_min_len as nat),
    )
}

/// Entropy options, emitted only with `--scan-entropy`; the threshold only when
/// it differs from the 7.5 default.
pub open spec fn cli_entropy(c: ScanConfig) -> Seq<Seq<char>> {
    if c.scan_entropy {
        seq!["--scan-entropy"@] + opt_u64_flag("--entropy-window-bytes"@, c.entropy_window_bytes)
            + flag_value_if(
            c.entropy_threshold_milli != 7500,
            "--entropy-threshold"@,
            milli_text(c.entropy_threshold_milli as nat),
        )
    } else {
        seq![]
    }
}

/// GPU, evidence hashing and resource limits.
pub open spec fn cli_limits(c: ScanConfig) -> Seq<Seq<char>> {
    flag_if(c.gpu_enabled, "--gpu"@) + flag_if(
        c.compute_evidence_hash,
        "--compute-evidence-sha256"@,
    ) + opt_text_flag("--evidence-sha256"@, c.evidence_sha256) + opt_u64_flag(
        "--max-bytes"@,
        c.max_bytes,
    ) + opt_u64_flag("--max-chunks"@, c.max_chunks) + opt_u64_flag("--max-files"@, c.max_files)
        + opt_u64_flag("--max-memory-mib"@, c.max_memory_mib) + opt_u64_flag(
        "--max-open-files"@,
        c.max_open_files,
    )
}

/// Workers, chunk size (always, so that each run records its chunk geometry)
/// and chunk overlap.
pub open spec fn cli_workers(c: ScanConfig) -> Seq<Seq<char>> {
    flag_value_if(c.workers > 0, "--workers"@, dec(c.workers as nat)) + flag_value_if(
        c.scan_workers > 0,
        "--scan-workers"@,
        dec(c.scan_workers as nat),
    ) + flag_value_if(c.carve_workers > 0, "--carve-workers"@, dec(c.carve_workers as nat))
        + flag_value_if(c.write_workers > 0, "--write-workers"@, dec(c.write_workers as nat))
        + seq!["--chunk-size-mib"@, dec(c.chunk_size_mib as nat)]
        + opt_u64_flag("--overlap-kib"@, c.overlap_kib)
}

/// Run mode, validation, hashing, dedupe, checkpoint and resume.
pub open spec fn cli_modes(c: ScanConfig) -> Seq<Seq<char>> {
    flag_if(c.dry_run, "--dry-run"@) + flag_if(c.metadata_only, "--metadata-only"@) + flag_if(
        c.validate_carved,
        "--validate-carved"@,
    ) + flag_if(c.remove_invalid, "--remove-invalid"@) + flag_value_if(
        c.hash_algorithms@.len() > 0,
        "--hash-algorithms"@,
        join(string_views(c.hash_algorithms@), ","@),
    ) + flag_if(c.dedupe, "--dedupe"@) + flag_if(c.skip_duplicates, "--skip-duplicates"@)
        + opt_text_flag("--checkpoint-path"@, c.checkpoint_path) + opt_text_flag(
        "--resume-from"@,
        c.resume_from,
    )
}

/// The `swiftbeaver` arguments for a configuration, in emission order.
pub open spec fn cli_args(c: ScanConfig) -> Seq<Seq<char>> {
    cli_head(c) + cli_selection(c) + cli_entropy(c) + cli_limits(c) + cli_workers(c) + cli_modes(c)
}

/// An argument list under construction, with its model.
pub(crate) struct ArgList {
    pub(crate) args: Vec<String>,
}

impl ArgList {
    pub(crate) open spec fn model(&self) -> Seq<Seq<char>> {
        string_views(self.args@)
    }

    pub(crate) fn value(&mut self, v: String)
        ensures
            final(self).model() == old(self).model().push(v@),
    {
        self.args.push(v);
        assert(self.model() =~= old(self).model().push(v@));
    }

    pub(crate) fn flag(&mut self, cond: bool, flag: &str)
        ensures
            final(self).model() == old(self).model() + flag_if(cond, flag@),
    {
        if cond {
            let s = string_of_str(flag);
            self.args.push(s);
        }
        assert(self.model() =~= old(self).model() + flag_if(cond, flag@));
    }

    pub(crate) fn flag_value(&mut self, cond: bool, flag: &str, value: String)
        ensures
            final(self).model() == old(self).model() + flag_value_if(cond, flag@, value@),
    {
        if cond {
            let s = string_of_str(flag);
            self.args.push(s);
            self.args.push(value);
        }
        assert(self.model() =~= old(self).model() + flag_value_if(cond, flag@, value@));
    }

    pub(crate) fn opt_u64(&mut self, flag: &str, v: Option<u64>)
        ensures
            final(self).model() == old(self).model() + opt_u64_flag(flag@, v),
    {
        match v {
            Some(n) => {
                let s = string_of_str(flag);
                let t = crate::text::dec_string(n);
                self.args.push(s);
                self.args.push(t);
            },
            None => {},
        }
        assert(self.model() =~= old(self).model() + opt_u64_flag(flag@, v));
    }

    pub(crate) fn opt_text(&mut self, flag: &str, v: &Option<String>)
        ensures
            final(self).model() == old(self).model() + opt_text_flag(flag@, *v),
    {
        match v {
            Some(t) => {
                if t.as_str().unicode_len() > 0 {
                    let s = string_of_str(flag);
                    self.args.push(s);
                    self.args.push(t.clone());
                }
            },
            None => {},
        }
        assert(self.model() =~= old(self).model() + opt_text_flag(flag@, *v));
    }
}

pub(crate) fn usize_text(n: usize) -> (r: String)
    ensures
        r@ == dec(n as nat),
{
    crate::text::dec_string(n as u64)
}

/// Renders `m / 1000` (see [`milli_text`]).
pub fn milli_string(m: u64) -> (r: String)
    ensures
        r@ == milli_text(m as nat),
{
    let mut out: Vec<char> = Vec::new();
    push_dec(&mut out, m / 1000);
    let f = m % 1000;
    if f != 0 {
        out.push('.');
        if f % 100 == 0 {
            push_dec(&mut out, f / 100);
        } else if f % 10 == 0 {
            if f < 100 {
                out.push('0');
            }
            push_dec(&mut out, f / 10);
        } else {
            if f < 10 {
                out.push('0');
                out.push('0');
            } else if f < 100 {
                out.push('0');
            }
            push_dec(&mut out, f);
        }
        proof {
            reveal_strlit("0");
            reveal_strlit("00");
            reveal_strlit(".");
        }
    }
    assert(out@ =~= milli_text(m as nat));
    string_of(&out)
}

#[verifier::spinoff_prover]
fn emit_head(a: &mut ArgList, c: &ScanConfig)
    ensures
        final(a).model() == old(a).model() + cli_head(*c),
{
    a.value(string_of_str("--input"));
    a.value(c.input_path.clone());
    a.value(string_of_str("--output"));
    a.value(c.output_path.clone());
    a.value(string_of_str("--log-format"));
    a.value(string_of_str("json"));
    a.value(string_of_str("--progress-interval-secs"));
    a.value(string_of_str("1"));
    a.value(string_of_str("--metadata-backend"));
    a.value(string_of_str(c.metadata_backend.as_str()));
    assert(a.model() =~= old(a).model() + cli_head(*c));
}

#[verifier::spinoff_prover]
fn emit_selection(a: &mut ArgList, c: &ScanConfig)
    ensures
        final(a).model() == old(a).model() + cli_selection(*c),
{
    let ghost m0 = a.model();
    a.opt_text("--config-path", &c.config_path);
    let ghost mut acc = opt_text_flag("--config-path"@, c.config_path);
    assert(a.model() == m0 + acc);
    let types = string_of(&join_strings(&c.file_types, ","));
    a.flag_value(c.file_types.len() > 0, "--types", types);
    proof {
        vstd::seq_lib::lemma_concat_associative(m0, acc, flag_value_if(c.file_types@.len() > 0, "--types"@, join(string_views(c.file_types@), ","@)));
        acc = acc + flag_value_if(c.file_types@.len() > 0, "--types"@, join(string_views(c.file_types@), ","@));
    }
    assert(a.model() == m0 + acc);
    a.flag(c.disable_zip, "--disable-zip");
    proof {
        vstd::seq_lib::lemma_concat_associative(m0, acc, flag_if(c.disable_zip, "--disable-zip"@));
        acc = acc + flag_if(c.disable_zip, "--disable-zip"@);
    }
    assert(a.model() == m0 + acc);
    a.flag(c.scan_strings, "--scan-strings");
    proof {
        vstd::seq_lib::lemma_concat_associative(m0, acc, flag_if(c.scan_strings, "--scan-strings"@));
        acc = acc + flag_if(c.scan_strings, "--scan-strings"@);
    }
    assert(a.model() == m0 + acc);
    a.flag(c.scan_utf16, "--scan-utf16");
    proof {
        vstd::seq_lib::lemma_concat_associative(m0, acc, flag_if(c.scan_utf16, "--scan-utf16"@));
        acc = acc + flag_if(c.scan_utf16, "--scan-utf16"@);
    }
    assert(a.model() == m0 + acc);
    a.flag(!c.scan_urls, "--no-scan-urls");
    proof {
        vstd::seq_lib::lemma_concat_associative(m0, acc, flag_if(!c.scan_urls, "--no-scan-urls"@));
        acc = acc + flag_if(!c.scan_urls, "--no-scan-urls"@);
    }
    assert(a.model() == m0 + acc);
    a.flag(!c.scan_emails, "--no-scan-emails");
    proof {
        vstd::seq_lib::lemma_concat_associative(m0, acc, flag_if(!c.scan_emails, "--no-scan-emails"@));
        acc = acc + flag_if(!c.scan_emails, "--no-scan-emails"@);
    }
    assert(a.model() == m0 + acc);
    a.flag(!c.scan_phones, "--no-scan-phones");
    proof {
        vstd::seq_lib::lemma_concat_associative(m0, acc, flag_if(!c.scan_phones, "--no-scan-phones"@));
        acc = acc + flag_if(!c.scan_phones, "--no-scan-phones"@);
    }
    assert(a.model() == m0 + acc);
    a.flag_value(
        c.string_min_len > 0 && c.string_min_len != crate::config::DEFAULT_STRING_MIN_LEN,
        "--string-min-len",
        usize_text(c.string_min_len),
    );
    proof {
        vstd::seq_lib::lemma_concat_associative(m0, acc, flag_value_if(c.string_min_len > 0 && c.string_min_len != 8, "--string-min-len"@, dec(c.string_min_len as nat)));
        acc = acc + flag_value_if(c.string_min_len > 0 && c.string_min_len != 8, "--string-min-len"@, dec(c.string_min_len as nat));
    }
    assert(a.model() == m0 + acc);
    assert(acc == cli_selection(*c));
}

#[verifier::spinoff_prover]
fn emit_entropy(a: &mut ArgList, c: &ScanConfig)
    ensures
        final(a).model() == old(a).model() + cli_entropy(*c),
{
    if c.scan_entropy {
        a.flag(true, "--scan-entropy");
        a.opt_u64("--entropy-window-bytes", c.entropy_window_bytes);
        a.flag_value(
            c.entropy_threshold_milli != crate::config::DEFAULT_ENTROPY_THRESHOLD_MILLI,
            "--entropy-threshold",
            milli_string(c.entropy_threshold_milli),
        );
    }
    assert(a.model() =~= old(a).model() + cli_entropy(*c));
}

#[verifier::spinoff_prover]
fn emit_limits(a: &mut ArgList, c: &ScanConfig)
    ensures
        final(a).model() == old(a).model() + cli_limits(*c),
{
    let ghost m0 = a.model();
    a.flag(c.gpu_enabled, "--gpu");
    let ghost mut acc = flag_if(c.gpu_enabled, "--gpu"@);
    assert(a.model() == m0 + acc);
    a.flag(c.compute_evidence_hash, "--compute-evidence-sha256");
    proof {
        vstd::seq_lib::lemma_concat_associative(m0, acc, flag_if(c.compute_evidence_hash, "--compute-evidence-sha256"@));
        acc = acc + flag_if(c.compute_evidence_hash, "--compute-evidence-sha256"@);
    }
    assert(a.model() == m0 + acc);
    a.opt_text("--evidence-sha256", &c.evidence_sha256);
    proof {
        vstd::seq_lib::lemma_concat_associative(m0, acc, opt_text_flag("--evidence-sha256"@, c.evidence_sha256));
        acc = acc + opt_text_flag("--evidence-sha256"@, c.evidence_sha256);
    }
    assert(a.model() == m0 + acc);
    a.opt_u64("--max-bytes", c.max_bytes);
    proof {
        vstd::seq_lib::lemma_concat_associative(m0, acc, opt_u64_flag("--max-bytes"@, c.max_bytes));
        acc = acc + opt_u64_flag("--max-bytes"@, c.max_bytes);
    }
    assert(a.model() == m0 + acc);
    a.opt_u64("--max-chunks", c.max_chunks);
    proof {
        vstd::seq_lib::lemma_concat_associative(m0, acc, opt_u64_flag("--max-chunks"@, c.max_chunks));
        acc = acc + opt_u64_flag("--max-chunks"@, c.max_chunks);
    }
    assert(a.model() == m0 + acc);
    a.opt_u64("--max-files", c.max_files);
    proof {
        vstd::seq_lib::lemma_concat_associative(m0, acc, opt_u64_flag("--max-files"@, c.max_files));
        acc = acc + opt_u64_flag("--max-files"@, c.max_files);
    }
    assert(a.model() == m0 + acc);
    a.opt_u64("--max-memory-mib", c.max_memory_mib);
    proof {
        vstd::seq_lib::lemma_concat_associative(m0, acc, opt_u64_flag("--max-memory-mib"@, c.max_memory_mib));
        acc = acc + opt_u64_flag("--max-memory-mib"@, c.max_memory_mib);
    }
    assert(a.model() == m0 + acc);
    a.opt_u64("--max-open-files", c.max_open_files);
    proof {
        vstd::seq_lib::lemma_concat_associative(m0, acc, opt_u64_flag("--max-open-files"@, c.max_open_files));
        acc = acc + opt_u64_flag("--max-open-files"@, c.max_open_files);
    }
    assert(a.model() == m0 + acc);
    assert(acc == cli_limits(*c));
}

#[verifier::spinoff_prover]
fn emit_workers(a: &mut ArgList, c: &ScanConfig)
    ensures
        final(a).model() == old(a).model() + cli_workers(*c),
{
    a.flag_value(c.workers > 0, "--workers", usize_text(c.workers));
    a.flag_value(c.scan_workers > 0, "--scan-workers", usize_text(c.scan_workers));
    a.flag_value(c.carve_workers > 0, "--carve-workers", usize_text(c.carve_workers));
    a.flag_value(c.write_workers > 0, "--write-workers", usize_text(c.write_workers));
    a.value(string_of_str("--chunk-size-mib"));
    a.value(crate::text::dec_string(c.chunk_size_mib));
    a.opt_u64("--overlap-kib", c.overlap_kib);
    assert(a.model() =~= old(a).model() + cli_workers(*c));
}

#[verifier::spinoff_prover]
fn emit_modes(a: &mut ArgList, c: &ScanConfig)
    ensures
        final(a).model() == old(a).model() + cli_modes(*c),
{
    let ghost m0 = a.model();
    a.flag(c.dry_run, "--dry-run");
    let ghost mut acc = flag_if(c.dry_run, "--dry-run"@);
    assert(a.model() == m0 + acc);
    a.flag(c.metadata_only, "--metadata-only");
    proof {
        vstd::seq_lib::lemma_concat_associative(m0, acc, flag_if(c.metadata_only, "--metadata-only"@));
        acc = acc + flag_if(c.metadata_only, "--metadata-only"@);
    }
    assert(a.model() == m0 + acc);
    a.flag(c.validate_carved, "--validate-carved");
    proof {
        vstd::seq_lib::lemma_concat_associative(m0, acc, flag_if(c.validate_carved, "--validate-carved"@));
        acc = acc + flag_if(c.validate_carved, "--validate-carved"@);
    }
    assert(a.model() == m0 + acc);
    a.flag(c.remove_invalid, "--remove-invalid");
    proof {
        vstd::seq_lib::lemma_concat_associative(m0, acc, flag_if(c.remove_invalid, "--remove-invalid"@));
        acc = acc + flag_if(c.remove_invalid, "--remove-invalid"@);
    }
    assert(a.model() == m0 + acc);
    let hashes = string_of(&join_strings(&c.hash_algorithms, ","));
    a.flag_value(c.hash_algorithms.len() > 0, "--hash-algorithms", hashes);
    proof {
        vstd::seq_lib::lemma_concat_associative(m0, acc, flag_value_if(c.hash_algorithms@.len() > 0, "--hash-algorithms"@, join(string_views(c.hash_algorithms@), ","@)));
        acc = acc + flag_value_if(c.hash_algorithms@.len() > 0, "--hash-algorithms"@, join(string_views(c.hash_algorithms@), ","@));
    }
    assert(a.model() == m0 + acc);
    a.flag(c.dedupe, "--dedupe");
    proof {
        vstd::seq_lib::lemma_concat_associative(m0, acc, flag_if(c.dedupe, "--dedupe"@));
        acc = acc + flag_if(c.dedupe, "--dedupe"@);
    }
    assert(a.model() == m0 + acc);
    a.flag(c.skip_duplicates, "--skip-duplicates");
    proof {
        vstd::seq_lib::lemma_concat_associative(m0, acc, flag_if(c.skip_duplicates, "--skip-duplicates"@));
        acc = acc + flag_if(c.skip_duplicates, "--skip-duplicates"@);
    }
    assert(a.model() == m0 + acc);
    a.opt_text("--checkpoint-path", &c.checkpoint_path);
    proof {
        vstd::seq_lib::lemma_concat_associative(m0, acc, opt_text_flag("--checkpoint-path"@, c.checkpoint_path));
        acc = acc + opt_text_flag("--checkpoint-path"@, c.checkpoint_path);
    }
    assert(a.model() == m0 + acc);
    a.opt_text("--resume-from", &c.resume_from);
    proof {
        vstd::seq_lib::lemma_concat_associative(m0, acc, opt_text_flag("--resume-from"@, c.resume_from));
        acc = acc + opt_text_flag("--resume-from"@, c.resume_from);
    }
    assert(a.model() == m0 + acc);
    assert(acc == cli_modes(*c));
}

/// Build the `swiftbeaver` command-line arguments from a configuration.
pub fn build_cli_args(config: &ScanConfig) -> (r: Vec<String>)
    ensures
        string_views(r@) == cli_args(*config),
{
    let mut a = ArgList { args: Vec::new() };
    assert(a.model() =~= Seq::<Seq<char>>::empty());
    emit_head(&mut a, config);
    assert(a.model() =~= cli_head(*config));
    emit_selection(&mut a, config);
    emit_entropy(&mut a, config);
    emit_limits(&mut a, config);
    emit_workers(&mut a, config);
    emit_modes(&mut a, config);
    a.args
}

/// Every command line names the chunk size: `--chunk-size-mib` followed by the
/// configured size appears in the arguments, whatever the configuration.
pub proof fn lemma_cli_args_name_chunk_size(c: ScanConfig)
    ensures
        exists|i: int|
            0 <= i && i + 1 < cli_args(c).len() && #[trigger] cli_args(c)[i] == "--chunk-size-mib"@
                && cli_args(c)[i + 1] == dec(c.chunk_size_mib as nat),
{
    let pre = cli_head(c) + cli_selection(c) + cli_entropy(c) + cli_limits(c);
    let w = flag_value_if(c.workers > 0, "--workers"@, dec(c.workers as nat)) + flag_value_if(
        c.scan_workers > 0,
        "--scan-workers"@,
        dec(c.scan_workers as nat),
    ) + flag_value_if(c.carve_workers > 0, "--carve-workers"@, dec(c.carve_workers as nat))
        + flag_value_if(c.write_workers > 0, "--write-workers"@, dec(c.write_workers as nat));
    let i: int = (pre.len() + w.len()) as int;
    assert(cli_args(c)[i] == "--chunk-size-mib"@);
    assert(cli_args(c)[i + 1] == dec(c.chunk_size_mib as nat));
}

/// Whether `t` is one of the texts a configuration passes through to the
/// command line unchanged: its paths, its file-type and hash-algorithm
/// lists, its expected hash.
pub open spec fn passes_text(c: ScanConfig, t: Seq<char>) -> bool {
    ||| t == c.input_path@
    ||| t == c.output_path@
    ||| nonempty_opt(c.config_path) == Some(t)
    ||| (c.file_types@.len() > 0 && t == join(string_views(c.file_types@), ","@))
    ||| nonempty_opt(c.evidence_sha256) == Some(t)
    ||| nonempty_opt(c.checkpoint_path) == Some(t)
    ||| nonempty_opt(c.resume_from) == Some(t)
    ||| (c.hash_algorithms@.len() > 0 && t == join(string_views(c.hash_algorithms@), ","@))
}

/// No argument of `args` is `x`.
pub open spec fn lacks(args: Seq<Seq<char>>, x: Seq<char>) -> bool {
    forall|i: int| 0 <= i < args.len() ==> args[i] != x
}

/// The flags whose presence the laws below pin to one configuration field.
pub open spec fn is_switch_flag(x: Seq<char>) -> bool {
    ||| x == "--hash-algorithms"@
    ||| x == "--dedupe"@
    ||| x == "--skip-duplicates"@
}

/// `x` is one of those flags and its field leaves it out.
pub open spec fn switch_off(c: ScanConfig, x: Seq<char>) -> bool {
    ||| x == "--hash-algorithms"@ && c.hash_algorithms@.len() == 0
    ||| x == "--dedupe"@ && !c.dedupe
    ||| x == "--skip-duplicates"@ && !c.skip_duplicates
}

proof fn lemma_not_target(s: Seq<char>)
    requires
        s.len() != 17 || (s[2] != 'h' && s[2] != 's'),
        s.len() != 8 || s[2] != 'd',
    ensures
        !is_switch_flag(s),
{
    reveal_strlit("--hash-algorithms");
    reveal_strlit("--dedupe");
    reveal_strlit("--skip-duplicates");
}

proof fn lemma_digits_not_target(s: Seq<char>)
    requires
        s.len() > 0,
        is_digit(s[0]),
    ensures
        !is_switch_flag(s),
{
    reveal_strlit("--hash-algorithms");
    reveal_strlit("--dedupe");
    reveal_strlit("--skip-duplicates");
}

proof fn lemma_dec_not_target(n: nat)
    ensures
        !is_switch_flag(dec(n)),
        !is_switch_flag(milli_text(n)),
{
    crate::text::lemma_dec_digits(n);
    crate::text::lemma_dec_digits(n / 1000);
    lemma_digits_not_target(dec(n));
    let m = milli_text(n);
    assert(m[0] == dec(n / 1000)[0]);
    lemma_digits_not_target(m);
}

/// `--hash-algorithms` is emitted exactly when at least one algorithm is
/// selected, followed by the selection joined with commas: present with a
/// non-empty selection, and absent with an empty one (unless a text the
/// configuration passes through is itself that flag).
pub proof fn lemma_hash_algorithms_flag_only_with_selection(c: ScanConfig)
    ensures
        c.hash_algorithms@.len() > 0 ==> exists|i: int|
            0 <= i && i + 1 < cli_args(c).len() && #[trigger] cli_args(c)[i] == "--hash-algorithms"@
                && cli_args(c)[i + 1] == join(string_views(c.hash_algorithms@), ","@),
        c.hash_algorithms@.len() == 0 && !passes_text(c, "--hash-algorithms"@) ==> lacks(
            cli_args(c),
            "--hash-algorithms"@,
        ),
{
    let pre = cli_head(c) + cli_selection(c) + cli_entropy(c) + cli_limits(c) + cli_workers(c);
    let m = flag_if(c.dry_run, "--dry-run"@) + flag_if(c.metadata_only, "--metadata-only"@) + flag_if(
        c.validate_carved,
        "--validate-carved"@,
    ) + flag_if(c.remove_invalid, "--remove-invalid"@);
    if c.hash_algorithms@.len() > 0 {
        let i: int = (pre.len() + m.len()) as int;
        assert(cli_args(c)[i] == "--hash-algorithms"@);
        assert(cli_args(c)[i + 1] == join(string_views(c.hash_algorithms@), ","@));
    }
    if c.hash_algorithms@.len() == 0 && !passes_text(c, "--hash-algorithms"@) {
        lemma_cli_args_lack_target(c, "--hash-algorithms"@);
    }
}

proof fn lemma_head_lacks_target(c: ScanConfig, x: Seq<char>)
    requires
        is_switch_flag(x),
        !passes_text(c, x),
    ensures
        lacks(cli_head(c), x),
{
    reveal_strlit("--input");
    lemma_not_target("--input"@);
    reveal_strlit("--output");
    lemma_not_target("--output"@);
    reveal_strlit("--log-format");
    lemma_not_target("--log-format"@);
    reveal_strlit("json");
    lemma_not_target("json"@);
    reveal_strlit("--progress-interval-secs");
    lemma_not_target("--progress-interval-secs"@);
    reveal_strlit("1");
    lemma_not_target("1"@);
    reveal_strlit("--metadata-backend");
    lemma_not_target("--metadata-backend"@);
    reveal_strlit("parquet");
    lemma_not_target("parquet"@);
    reveal_strlit("jsonl");
    lemma_not_target("jsonl"@);
    reveal_strlit("csv");
    lemma_not_target("csv"@);

}

proof fn lemma_lacks_concat(a: Seq<Seq<char>>, b: Seq<Seq<char>>, x: Seq<char>)
    requires
        lacks(a, x),
        lacks(b, x),
    ensures
        lacks(a + b, x),
{
    assert forall|i: int| 0 <= i < (a + b).len() implies (a + b)[i] != x by {
        if i < a.len() {
            assert((a + b)[i] == a[i]);
        } else {
            assert((a + b)[i] == b[i - a.len()]);
        }
    }
}

proof fn lemma_flag_lacks(cond: bool, flag: Seq<char>, x: Seq<char>)
    requires
        flag != x,
    ensures
        lacks(flag_if(cond, flag), x),
{
}

proof fn lemma_selection_lacks_target(c: ScanConfig, x: Seq<char>)
    requires
        is_switch_flag(x),
        !passes_text(c, x),
    ensures
        lacks(cli_selection(c), x),
{
    let h = x;
    reveal_strlit("--config-path");
    lemma_not_target("--config-path"@);
    reveal_strlit("--types");
    lemma_not_target("--types"@);
    reveal_strlit("--disable-zip");
    lemma_not_target("--disable-zip"@);
    reveal_strlit("--scan-strings");
    lemma_not_target("--scan-strings"@);
    reveal_strlit("--scan-utf16");
    lemma_not_target("--scan-utf16"@);
    reveal_strlit("--no-scan-urls");
    lemma_not_target("--no-scan-urls"@);
    reveal_strlit("--no-scan-emails");
    lemma_not_target("--no-scan-emails"@);
    reveal_strlit("--no-scan-phones");
    lemma_not_target("--no-scan-phones"@);
    reveal_strlit("--string-min-len");
    lemma_not_target("--string-min-len"@);
    lemma_dec_not_target(c.string_min_len as nat);
    let p1 = opt_text_flag("--config-path"@, c.config_path);
    let p2 = flag_value_if(c.file_types@.len() > 0, "--types"@, join(string_views(c.file_types@), ","@));
    let p3 = flag_if(c.disable_zip, "--disable-zip"@);
    let p4 = flag_if(c.scan_strings, "--scan-strings"@);
    let p5 = flag_if(c.scan_utf16, "--scan-utf16"@);
    let p6 = flag_if(!c.scan_urls, "--no-scan-urls"@);
    let p7 = flag_if(!c.scan_emails, "--no-scan-emails"@);
    let p8 = flag_if(!c.scan_phones, "--no-scan-phones"@);
    let p9 = flag_value_if(c.string_min_len > 0 && c.string_min_len != 8, "--string-min-len"@, dec(c.string_min_len as nat));
    assert(lacks(p1, h));
    assert(lacks(p2, h));
    lemma_flag_lacks(c.disable_zip, "--disable-zip"@, x);
    lemma_flag_lacks(c.scan_strings, "--scan-strings"@, x);
    lemma_flag_lacks(c.scan_utf16, "--scan-utf16"@, x);
    lemma_flag_lacks(!c.scan_urls, "--no-scan-urls"@, x);
    lemma_flag_lacks(!c.scan_emails, "--no-scan-emails"@, x);
    lemma_flag_lacks(!c.scan_phones, "--no-scan-phones"@, x);
    assert(lacks(p9, h));
    lemma_lacks_concat(p1, p2, h);
    lemma_lacks_concat(p1 + p2, p3, h);
    lemma_lacks_concat(p1 + p2 + p3, p4, h);
    lemma_lacks_concat(p1 + p2 + p3 + p4, p5, h);
    lemma_lacks_concat(p1 + p2 + p3 + p4 + p5, p6, h);
    lemma_lacks_concat(p1 + p2 + p3 + p4 + p5 + p6, p7, h);
    lemma_lacks_concat(p1 + p2 + p3 + p4 + p5 + p6 + p7, p8, h);
    lemma_lacks_concat(p1 + p2 + p3 + p4 + p5 + p6 + p7 + p8, p9, h);
}

proof fn lemma_entropy_lacks_target(c: ScanConfig, x: Seq<char>)
    requires
        is_switch_flag(x),
        !passes_text(c, x),
    ensures
        lacks(cli_entropy(c), x),
{
    reveal_strlit("--scan-entropy");
    lemma_not_target("--scan-entropy"@);
    reveal_strlit("--entropy-window-bytes");
    lemma_not_target("--entropy-window-bytes"@);
    reveal_strlit("--entropy-threshold");
    lemma_not_target("--entropy-threshold"@);
    lemma_dec_not_target(c.entropy_threshold_milli as nat);
    if let Some(n) = c.entropy_window_bytes {
        lemma_dec_not_target(n as nat);
    }
}

proof fn lemma_opt_u64_lacks(flag: Seq<char>, v: Option<u64>, x: Seq<char>)
    requires
        flag != x,
        is_switch_flag(x),
    ensures
        lacks(opt_u64_flag(flag, v), x),
{
    if let Some(n) = v {
        lemma_dec_not_target(n as nat);
    }
}

proof fn lemma_limits_lacks_target(c: ScanConfig, x: Seq<char>)
    requires
        is_switch_flag(x),
        !passes_text(c, x),
    ensures
        lacks(cli_limits(c), x),
{
    let h = x;
    reveal_strlit("--gpu");
    lemma_not_target("--gpu"@);
    reveal_strlit("--compute-evidence-sha256");
    lemma_not_target("--compute-evidence-sha256"@);
    reveal_strlit("--evidence-sha256");
    lemma_not_target("--evidence-sha256"@);
    reveal_strlit("--max-bytes");
    lemma_not_target("--max-bytes"@);
    reveal_strlit("--max-chunks");
    lemma_not_target("--max-chunks"@);
    reveal_strlit("--max-files");
    lemma_not_target("--max-files"@);
    reveal_strlit("--max-memory-mib");
    lemma_not_target("--max-memory-mib"@);
    reveal_strlit("--max-open-files");
    lemma_not_target("--max-open-files"@);
    let p1 = flag_if(c.gpu_enabled, "--gpu"@);
    let p2 = flag_if(c.compute_evidence_hash, "--compute-evidence-sha256"@);
    let p3 = opt_text_flag("--evidence-sha256"@, c.evidence_sha256);
    let p4 = opt_u64_flag("--max-bytes"@, c.max_bytes);
    let p5 = opt_u64_flag("--max-chunks"@, c.max_chunks);
    let p6 = opt_u64_flag("--max-files"@, c.max_files);
    let p7 = opt_u64_flag("--max-memory-mib"@, c.max_memory_mib);
    let p8 = opt_u64_flag("--max-open-files"@, c.max_open_files);
    lemma_flag_lacks(c.gpu_enabled, "--gpu"@, x);
    lemma_flag_lacks(c.compute_evidence_hash, "--compute-evidence-sha256"@, x);
    assert(lacks(p3, h));
    lemma_opt_u64_lacks("--max-bytes"@, c.max_bytes, x);
    lemma_opt_u64_lacks("--max-chunks"@, c.max_chunks, x);
    lemma_opt_u64_lacks("--max-files"@, c.max_files, x);
    lemma_opt_u64_lacks("--max-memory-mib"@, c.max_memory_mib, x);
    lemma_opt_u64_lacks("--max-open-files"@, c.max_open_files, x);
    lemma_lacks_concat(p1, p2, h);
    lemma_lacks_concat(p1 + p2, p3, h);
    lemma_lacks_concat(p1 + p2 + p3, p4, h);
    lemma_lacks_concat(p1 + p2 + p3 + p4, p5, h);
    lemma_lacks_concat(p1 + p2 + p3 + p4 + p5, p6, h);
    lemma_lacks_concat(p1 + p2 + p3 + p4 + p5 + p6, p7, h);
    lemma_lacks_concat(p1 + p2 + p3 + p4 + p5 + p6 + p7, p8, h);
}

proof fn lemma_workers_lacks_target(c: ScanConfig, x: Seq<char>)
    requires
        is_switch_flag(x),
        !passes_text(c, x),
    ensures
        lacks(cli_workers(c), x),
{
    reveal_strlit("--workers");
    lemma_not_target("--workers"@);
    reveal_strlit("--scan-workers");
    lemma_not_target("--scan-workers"@);
    reveal_strlit("--carve-workers");
    lemma_not_target("--carve-workers"@);
    reveal_strlit("--write-workers");
    lemma_not_target("--write-workers"@);
    reveal_strlit("--chunk-size-mib");
    lemma_not_target("--chunk-size-mib"@);
    reveal_strlit("--overlap-kib");
    lemma_not_target("--overlap-kib"@);
    lemma_dec_not_target(c.workers as nat);
    lemma_dec_not_target(c.scan_workers as nat);
    lemma_dec_not_target(c.carve_workers as nat);
    lemma_dec_not_target(c.write_workers as nat);
    lemma_dec_not_target(c.chunk_size_mib as nat);
    if let Some(n) = c.overlap_kib {
        lemma_dec_not_target(n as nat);
    }
}

proof fn lemma_modes_lacks_target(c: ScanConfig, x: Seq<char>)
    requires
        switch_off(c, x),
        !passes_text(c, x),
    ensures
        lacks(cli_modes(c), x),
{
    let hs = "--hash-algorithms"@;
    let dd = "--dedupe"@;
    let sk = "--skip-duplicates"@;
    reveal_strlit("--hash-algorithms");
    reveal_strlit("--dedupe");
    reveal_strlit("--skip-duplicates");
    assert(hs[2] != sk[2]);
    reveal_strlit("--dry-run");
    lemma_not_target("--dry-run"@);
    reveal_strlit("--metadata-only");
    lemma_not_target("--metadata-only"@);
    reveal_strlit("--validate-carved");
    lemma_not_target("--validate-carved"@);
    reveal_strlit("--remove-invalid");
    lemma_not_target("--remove-invalid"@);
    reveal_strlit("--checkpoint-path");
    lemma_not_target("--checkpoint-path"@);
    reveal_strlit("--resume-from");
    lemma_not_target("--resume-from"@);
    let p1 = flag_if(c.dry_run, "--dry-run"@);
    let p2 = flag_if(c.metadata_only, "--metadata-only"@);
    let p3 = flag_if(c.validate_carved, "--validate-carved"@);
    let p4 = flag_if(c.remove_invalid, "--remove-invalid"@);
    let p5 = flag_value_if(c.hash_algorithms@.len() > 0, hs, join(string_views(c.hash_algorithms@), ","@));
    let p6 = flag_if(c.dedupe, dd);
    let p7 = flag_if(c.skip_duplicates, sk);
    let p8 = opt_text_flag("--checkpoint-path"@, c.checkpoint_path);
    let p9 = opt_text_flag("--resume-from"@, c.resume_from);
    lemma_flag_lacks(c.dry_run, "--dry-run"@, x);
    lemma_flag_lacks(c.metadata_only, "--metadata-only"@, x);
    lemma_flag_lacks(c.validate_carved, "--validate-carved"@, x);
    lemma_flag_lacks(c.remove_invalid, "--remove-invalid"@, x);
    assert(lacks(p5, x));
    assert(lacks(p6, x));
    assert(lacks(p7, x));
    assert(lacks(p8, x));
    assert(lacks(p9, x));
    lemma_lacks_concat(p1, p2, x);
    lemma_lacks_concat(p1 + p2, p3, x);
    lemma_lacks_concat(p1 + p2 + p3, p4, x);
    lemma_lacks_concat(p1 + p2 + p3 + p4, p5, x);
    lemma_lacks_concat(p1 + p2 + p3 + p4 + p5, p6, x);
    lemma_lacks_concat(p1 + p2 + p3 + p4 + p5 + p6, p7, x);
    lemma_lacks_concat(p1 + p2 + p3 + p4 + p5 + p6 + p7, p8, x);
    lemma_lacks_concat(p1 + p2 + p3 + p4 + p5 + p6 + p7 + p8, p9, x);
}

proof fn lemma_cli_args_lack_target(c: ScanConfig, x: Seq<char>)
    requires
        switch_off(c, x),
        !passes_text(c, x),
    ensures
        lacks(cli_args(c), x),
{
    lemma_head_lacks_target(c, x);
    lemma_selection_lacks_target(c, x);
    lemma_entropy_lacks_target(c, x);
    lemma_limits_lacks_target(c, x);
    lemma_workers_lacks_target(c, x);
    lemma_modes_lacks_target(c, x);
    let h = x;
    let args = cli_args(c);
    assert forall|i: int| 0 <= i < args.len() implies args[i] != h by {
        let a1 = cli_head(c);
        let a2 = a1 + cli_selection(c);
        let a3 = a2 + cli_entropy(c);
        let a4 = a3 + cli_limits(c);
        let a5 = a4 + cli_workers(c);
        if i < a1.len() {
            assert(args[i] == a1[i]);
        } else if i < a2.len() {
            assert(args[i] == cli_selection(c)[i - a1.len()]);
        } else if i < a3.len() {
            assert(args[i] == cli_entropy(c)[i - a2.len()]);
        } else if i < a4.len() {
            assert(args[i] == cli_limits(c)[i - a3.len()]);
        } else if i < a5.len() {
            assert(args[i] == cli_workers(c)[i - a4.len()]);
        } else {
            assert(args[i] == cli_modes(c)[i - a5.len()]);
        }
    }
}

/// `--dedupe` is emitted exactly when deduplication is on: present when
/// `dedupe` is set, and absent when it is not (unless a text the configuration
/// passes through is itself that flag).
pub proof fn lemma_dedupe_flag_iff_set(c: ScanConfig)
    ensures
        c.dedupe ==> exists|i: int| 0 <= i < cli_args(c).len() && #[trigger] cli_args(c)[i] == "--dedupe"@,
        !c.dedupe && !passes_text(c, "--dedupe"@) ==> lacks(cli_args(c), "--dedupe"@),
{
    let pre = cli_head(c) + cli_selection(c) + cli_entropy(c) + cli_limits(c) + cli_workers(c);
    let m = flag_if(c.dry_run, "--dry-run"@) + flag_if(c.metadata_only, "--metadata-only"@) + flag_if(
        c.validate_carved,
        "--validate-carved"@,
    ) + flag_if(c.remove_invalid, "--remove-invalid"@) + flag_value_if(
        c.hash_algorithms@.len() > 0,
        "--hash-algorithms"@,
        join(string_views(c.hash_algorithms@), ","@),
    );
    if c.dedupe {
        let i: int = (pre.len() + m.len()) as int;
        assert(cli_args(c)[i] == "--dedupe"@);
    }
    if !c.dedupe && !passes_text(c, "--dedupe"@) {
        lemma_cli_args_lack_target(c, "--dedupe"@);
    }
}

/// `--skip-duplicates` is emitted exactly when duplicate skipping is on:
/// present when `skip_duplicates` is set, and absent when it is not (unless a
/// text the configuration passes through is itself that flag).
pub proof fn lemma_skip_duplicates_flag_iff_set(c: ScanConfig)
    ensures
        c.skip_duplicates ==> exists|i: int|
            0 <= i < cli_args(c).len() && #[trigger] cli_args(c)[i] == "--skip-duplicates"@,
        !c.skip_duplicates && !passes_text(c, "--skip-duplicates"@) ==> lacks(
            cli_args(c),
            "--skip-duplicates"@,
        ),
{
    let pre = cli_head(c) + cli_selection(c) + cli_entropy(c) + cli_limits(c) + cli_workers(c);
    let m = flag_if(c.dry_run, "--dry-run"@) + flag_if(c.metadata_only, "--metadata-only"@) + flag_if(
        c.validate_carved,
        "--validate-carved"@,
    ) + flag_if(c.remove_invalid, "--remove-invalid"@) + flag_value_if(
        c.hash_algorithms@.len() > 0,
        "--hash-algorithms"@,
        join(string_views(c.hash_algorithms@), ","@),
    ) + flag_if(c.dedupe, "--dedupe"@);
    if c.skip_duplicates {
        let i: int = (pre.len() + m.len()) as int;
        assert(cli_args(c)[i] == "--skip-duplicates"@);
    }
    if !c.skip_duplicates && !passes_text(c, "--skip-duplicates"@) {
        lemma_cli_args_lack_target(c, "--skip-duplicates"@);
    }
}

} // verus!
