//! Laws of the SwiftBeaver command line: which flags a configuration puts on
//! it.

use vstd::prelude::*;

use crate::config::{backend_name, nonempty_opt, ScanConfig};
use crate::scan::manager::{
    cli_args, cli_entropy, cli_head, cli_limits, cli_modes, cli_selection, cli_workers, milli_text, passes_text,
};
use crate::scan::manager::{flag_if, flag_value_if, opt_text_flag, opt_u64_flag};
use crate::text::{dec, is_digit, join, string_views};

verus! {

/// `x` is one of the arguments `args`.
pub open spec fn occurs(args: Seq<Seq<char>>, x: Seq<char>) -> bool {
    exists|i: int| 0 <= i < args.len() && args[i] == x
}

/// The flags a configuration puts on its command line, each with the fields
/// that decide it.
pub open spec fn flag_on(c: ScanConfig, x: Seq<char>) -> bool {
    ||| x == "--input"@
    ||| x == "--output"@
    ||| x == "--log-format"@
    ||| x == "--progress-interval-secs"@
    ||| x == "--metadata-backend"@
    ||| x == "--config-path"@ && (nonempty_opt(c.config_path) is Some)
    ||| x == "--types"@ && (c.file_types@.len() > 0)
    ||| x == "--disable-zip"@ && (c.disable_zip)
    ||| x == "--scan-strings"@ && (c.scan_strings)
    ||| x == "--scan-utf16"@ && (c.scan_utf16)
    ||| x == "--no-scan-urls"@ && (!c.scan_urls)
    ||| x == "--no-scan-emails"@ && (!c.scan_emails)
    ||| x == "--no-scan-phones"@ && (!c.scan_phones)
    ||| x == "--string-min-len"@ && (c.string_min_len > 0 && c.string_min_len != 8)
    ||| x == "--scan-entropy"@ && (c.scan_entropy)
    ||| x == "--entropy-window-bytes"@ && (c.scan_entropy && c.entropy_window_bytes is Some)
    ||| x == "--entropy-threshold"@ && (c.scan_entropy && c.entropy_threshold_milli != 7500)
    ||| x == "--gpu"@ && (c.gpu_enabled)
    ||| x == "--compute-evidence-sha256"@ && (c.compute_evidence_hash)
    ||| x == "--evidence-sha256"@ && (nonempty_opt(c.evidence_sha256) is Some)
    ||| x == "--max-bytes"@ && (c.max_bytes is Some)
    ||| x == "--max-chunks"@ && (c.max_chunks is Some)
    ||| x == "--max-files"@ && (c.max_files is Some)
    ||| x == "--max-memory-mib"@ && (c.max_memory_mib is Some)
    ||| x == "--max-open-files"@ && (c.max_open_files is Some)
    ||| x == "--workers"@ && (c.workers > 0)
    ||| x == "--scan-workers"@ && (c.scan_workers > 0)
    ||| x == "--carve-workers"@ && (c.carve_workers > 0)
    ||| x == "--write-workers"@ && (c.write_workers > 0)
    ||| x == "--chunk-size-mib"@
    ||| x == "--overlap-kib"@ && (c.overlap_kib is Some)
    ||| x == "--dry-run"@ && (c.dry_run)
    ||| x == "--metadata-only"@ && (c.metadata_only)
    ||| x == "--validate-carved"@ && (c.validate_carved)
    ||| x == "--remove-invalid"@ && (c.remove_invalid)
    ||| x == "--hash-algorithms"@ && (c.hash_algorithms@.len() > 0)
    ||| x == "--dedupe"@ && (c.dedupe)
    ||| x == "--skip-duplicates"@ && (c.skip_duplicates)
    ||| x == "--checkpoint-path"@ && (nonempty_opt(c.checkpoint_path) is Some)
    ||| x == "--resume-from"@ && (nonempty_opt(c.resume_from) is Some)
}

proof fn lemma_occurs_concat()
    ensures
        forall|a: Seq<Seq<char>>, b: Seq<Seq<char>>, x: Seq<char>|
            #[trigger] occurs(a + b, x) <==> occurs(a, x) || occurs(b, x),
        forall|l: Seq<char>| #[trigger] occurs(Seq::<Seq<char>>::empty().push(l), l),
        forall|l: Seq<char>, v: Seq<char>| #[trigger] occurs(Seq::<Seq<char>>::empty().push(l).push(v), l),
        forall|x: Seq<char>| !#[trigger] occurs(Seq::<Seq<char>>::empty(), x),
        forall|l: Seq<char>, x: Seq<char>| #[trigger] occurs(Seq::<Seq<char>>::empty().push(l), x) ==> x == l,
        forall|l: Seq<char>, v: Seq<char>, x: Seq<char>|
            #[trigger] occurs(Seq::<Seq<char>>::empty().push(l).push(v), x) ==> x == l || x == v,
{
    assert forall|a: Seq<Seq<char>>, b: Seq<Seq<char>>, x: Seq<char>|
        #[trigger] occurs(a + b, x) <==> occurs(a, x) || occurs(b, x) by {
        if occurs(a + b, x) {
            let i = choose|i: int| 0 <= i < (a + b).len() && (a + b)[i] == x;
            if i < a.len() {
                assert(a[i] == x);
            } else {
                assert(b[i - a.len()] == x);
            }
        }
        if occurs(a, x) {
            let i = choose|i: int| 0 <= i < a.len() && a[i] == x;
            assert((a + b)[i] == x);
        }
        if occurs(b, x) {
            let i = choose|i: int| 0 <= i < b.len() && b[i] == x;
            assert((a + b)[a.len() + i] == x);
        }
    }
    assert forall|l: Seq<char>| #[trigger] occurs(Seq::<Seq<char>>::empty().push(l), l) by {
        assert(Seq::<Seq<char>>::empty().push(l)[0] == l);
    }
    assert forall|l: Seq<char>, v: Seq<char>| #[trigger] occurs(Seq::<Seq<char>>::empty().push(l).push(v), l) by {
        assert(Seq::<Seq<char>>::empty().push(l).push(v)[0] == l);
    }
    assert forall|l: Seq<char>, x: Seq<char>| #[trigger] occurs(Seq::<Seq<char>>::empty().push(l), x) implies x == l by {
        let i = choose|i: int| 0 <= i < 1 && Seq::<Seq<char>>::empty().push(l)[i] == x;
    }
    assert forall|l: Seq<char>, v: Seq<char>, x: Seq<char>|
        #[trigger] occurs(Seq::<Seq<char>>::empty().push(l).push(v), x) implies x == l || x == v by {
        let s = Seq::<Seq<char>>::empty().push(l).push(v);
        let i = choose|i: int| 0 <= i < 2 && s[i] == x;
        assert(i == 0 || i == 1);
    }
}

/// `x` is an argument of `args` followed by `v`.
pub open spec fn follows(args: Seq<Seq<char>>, x: Seq<char>, v: Seq<char>) -> bool {
    exists|i: int| 0 <= i && i + 1 < args.len() && #[trigger] args[i] == x && args[i + 1] == v
}

proof fn lemma_follows_concat()
    ensures
        forall|a: Seq<Seq<char>>, b: Seq<Seq<char>>, x: Seq<char>, v: Seq<char>|
            #[trigger] follows(a + b, x, v) <== follows(a, x, v) || follows(b, x, v),
        forall|l: Seq<char>, v: Seq<char>| #[trigger] follows(Seq::<Seq<char>>::empty().push(l).push(v), l, v),
{
    assert forall|a: Seq<Seq<char>>, b: Seq<Seq<char>>, x: Seq<char>, v: Seq<char>|
        follows(a, x, v) || follows(b, x, v) implies #[trigger] follows(a + b, x, v) by {
        if follows(a, x, v) {
            let i = choose|i: int| 0 <= i && i + 1 < a.len() && #[trigger] a[i] == x && a[i + 1] == v;
            assert((a + b)[i] == x && (a + b)[i + 1] == v);
        } else {
            let i = choose|i: int| 0 <= i && i + 1 < b.len() && #[trigger] b[i] == x && b[i + 1] == v;
            assert((a + b)[a.len() + i] == x && (a + b)[a.len() + i + 1] == v);
        }
    }
    assert forall|l: Seq<char>, v: Seq<char>| #[trigger] follows(Seq::<Seq<char>>::empty().push(l).push(v), l, v) by {
        let s = Seq::<Seq<char>>::empty().push(l).push(v);
        assert(s[0] == l && s[1] == v);
    }
}

proof fn lemma_number_not_flag(n: nat, x: Seq<char>)
    requires
        x.len() > 0,
        x[0] == '-',
    ensures
        dec(n) != x,
        milli_text(n) != x,
{
    crate::text::lemma_dec_digits(n);
    crate::text::lemma_dec_digits(n / 1000);
    assert(is_digit(dec(n)[0]));
    assert(milli_text(n)[0] == dec(n / 1000)[0]);
    assert(is_digit(milli_text(n)[0]));
}

/// What the flag names look like, enough to tell them apart.
proof fn lemma_flag_texts()
    ensures
        "--carve-workers"@.len() == 15,
        "--checkpoint-path"@.len() == 17,
        "--chunk-size-mib"@.len() == 16,
        "--compute-evidence-sha256"@.len() == 25,
        "--config-path"@.len() == 13,
        "--dedupe"@.len() == 8,
        "--disable-zip"@.len() == 13,
        "--dry-run"@.len() == 9,
        "--entropy-threshold"@.len() == 19,
        "--entropy-window-bytes"@.len() == 22,
        "--evidence-sha256"@.len() == 17,
        "--gpu"@.len() == 5,
        "--hash-algorithms"@.len() == 17,
        "--input"@.len() == 7,
        "--log-format"@.len() == 12,
        "--max-bytes"@.len() == 11,
        "--max-chunks"@.len() == 12,
        "--max-files"@.len() == 11,
        "--max-memory-mib"@.len() == 16,
        "--max-open-files"@.len() == 16,
        "--metadata-backend"@.len() == 18,
        "--metadata-only"@.len() == 15,
        "--no-scan-emails"@.len() == 16,
        "--no-scan-phones"@.len() == 16,
        "--no-scan-urls"@.len() == 14,
        "--output"@.len() == 8,
        "--overlap-kib"@.len() == 13,
        "--progress-interval-secs"@.len() == 24,
        "--remove-invalid"@.len() == 16,
        "--resume-from"@.len() == 13,
        "--scan-entropy"@.len() == 14,
        "--scan-strings"@.len() == 14,
        "--scan-utf16"@.len() == 12,
        "--scan-workers"@.len() == 14,
        "--skip-duplicates"@.len() == 17,
        "--string-min-len"@.len() == 16,
        "--types"@.len() == 7,
        "--validate-carved"@.len() == 17,
        "--workers"@.len() == 9,
        "--write-workers"@.len() == 15,
        "--carve-workers"@[0] == '-',
        "--checkpoint-path"@[0] == '-',
        "--chunk-size-mib"@[0] == '-',
        "--compute-evidence-sha256"@[0] == '-',
        "--config-path"@[0] == '-',
        "--dedupe"@[0] == '-',
        "--disable-zip"@[0] == '-',
        "--dry-run"@[0] == '-',
        "--entropy-threshold"@[0] == '-',
        "--entropy-window-bytes"@[0] == '-',
        "--evidence-sha256"@[0] == '-',
        "--gpu"@[0] == '-',
        "--hash-algorithms"@[0] == '-',
        "--input"@[0] == '-',
        "--log-format"@[0] == '-',
        "--max-bytes"@[0] == '-',
        "--max-chunks"@[0] == '-',
        "--max-files"@[0] == '-',
        "--max-memory-mib"@[0] == '-',
        "--max-open-files"@[0] == '-',
        "--metadata-backend"@[0] == '-',
        "--metadata-only"@[0] == '-',
        "--no-scan-emails"@[0] == '-',
        "--no-scan-phones"@[0] == '-',
        "--no-scan-urls"@[0] == '-',
        "--output"@[0] == '-',
        "--overlap-kib"@[0] == '-',
        "--progress-interval-secs"@[0] == '-',
        "--remove-invalid"@[0] == '-',
        "--resume-from"@[0] == '-',
        "--scan-entropy"@[0] == '-',
        "--scan-strings"@[0] == '-',
        "--scan-utf16"@[0] == '-',
        "--scan-workers"@[0] == '-',
        "--skip-duplicates"@[0] == '-',
        "--string-min-len"@[0] == '-',
        "--types"@[0] == '-',
        "--validate-carved"@[0] == '-',
        "--workers"@[0] == '-',
        "--write-workers"@[0] == '-',
        "--carve-workers"@[2] != "--metadata-only"@[2],
        "--carve-workers"@[2] != "--write-workers"@[2],
        "--checkpoint-path"@[2] != "--evidence-sha256"@[2],
        "--checkpoint-path"@[2] != "--hash-algorithms"@[2],
        "--checkpoint-path"@[2] != "--skip-duplicates"@[2],
        "--checkpoint-path"@[2] != "--validate-carved"@[2],
        "--chunk-size-mib"@[2] != "--max-memory-mib"@[2],
        "--chunk-size-mib"@[2] != "--max-open-files"@[2],
        "--chunk-size-mib"@[2] != "--no-scan-emails"@[2],
        "--chunk-size-mib"@[2] != "--no-scan-phones"@[2],
        "--chunk-size-mib"@[2] != "--remove-invalid"@[2],
        "--chunk-size-mib"@[2] != "--string-min-len"@[2],
        "--config-path"@[2] != "--disable-zip"@[2],
        "--config-path"@[2] != "--overlap-kib"@[2],
        "--config-path"@[2] != "--resume-from"@[2],
        "--dedupe"@[2] != "--output"@[2],
        "--disable-zip"@[2] != "--overlap-kib"@[2],
        "--disable-zip"@[2] != "--resume-from"@[2],
        "--dry-run"@[2] != "--workers"@[2],
        "--evidence-sha256"@[2] != "--hash-algorithms"@[2],
        "--evidence-sha256"@[2] != "--skip-duplicates"@[2],
        "--evidence-sha256"@[2] != "--validate-carved"@[2],
        "--hash-algorithms"@[2] != "--skip-duplicates"@[2],
        "--hash-algorithms"@[2] != "--validate-carved"@[2],
        "--input"@[2] != "--types"@[2],
        "--log-format"@[2] != "--max-chunks"@[2],
        "--log-format"@[2] != "--scan-utf16"@[2],
        "--max-bytes"@[6] != "--max-files"@[6],
        "--max-chunks"@[2] != "--scan-utf16"@[2],
        "--max-memory-mib"@[6] != "--max-open-files"@[6],
        "--max-memory-mib"@[2] != "--no-scan-emails"@[2],
        "--max-memory-mib"@[2] != "--no-scan-phones"@[2],
        "--max-memory-mib"@[2] != "--remove-invalid"@[2],
        "--max-memory-mib"@[2] != "--string-min-len"@[2],
        "--max-open-files"@[2] != "--no-scan-emails"@[2],
        "--max-open-files"@[2] != "--no-scan-phones"@[2],
        "--max-open-files"@[2] != "--remove-invalid"@[2],
        "--max-open-files"@[2] != "--string-min-len"@[2],
        "--metadata-only"@[2] != "--write-workers"@[2],
        "--no-scan-emails"@[10] != "--no-scan-phones"@[10],
        "--no-scan-emails"@[2] != "--remove-invalid"@[2],
        "--no-scan-emails"@[2] != "--string-min-len"@[2],
        "--no-scan-phones"@[2] != "--remove-invalid"@[2],
        "--no-scan-phones"@[2] != "--string-min-len"@[2],
        "--no-scan-urls"@[2] != "--scan-entropy"@[2],
        "--no-scan-urls"@[2] != "--scan-strings"@[2],
        "--no-scan-urls"@[2] != "--scan-workers"@[2],
        "--overlap-kib"@[2] != "--resume-from"@[2],
        "--remove-invalid"@[2] != "--string-min-len"@[2],
        "--scan-entropy"@[7] != "--scan-strings"@[7],
        "--scan-entropy"@[7] != "--scan-workers"@[7],
        "--scan-strings"@[7] != "--scan-workers"@[7],
        "--skip-duplicates"@[2] != "--validate-carved"@[2],
{
    reveal_strlit("--carve-workers");
    reveal_strlit("--checkpoint-path");
    reveal_strlit("--chunk-size-mib");
    reveal_strlit("--compute-evidence-sha256");
    reveal_strlit("--config-path");
    reveal_strlit("--dedupe");
    reveal_strlit("--disable-zip");
    reveal_strlit("--dry-run");
    reveal_strlit("--entropy-threshold");
    reveal_strlit("--entropy-window-bytes");
    reveal_strlit("--evidence-sha256");
    reveal_strlit("--gpu");
    reveal_strlit("--hash-algorithms");
    reveal_strlit("--input");
    reveal_strlit("--log-format");
    reveal_strlit("--max-bytes");
    reveal_strlit("--max-chunks");
    reveal_strlit("--max-files");
    reveal_strlit("--max-memory-mib");
    reveal_strlit("--max-open-files");
    reveal_strlit("--metadata-backend");
    reveal_strlit("--metadata-only");
    reveal_strlit("--no-scan-emails");
    reveal_strlit("--no-scan-phones");
    reveal_strlit("--no-scan-urls");
    reveal_strlit("--output");
    reveal_strlit("--overlap-kib");
    reveal_strlit("--progress-interval-secs");
    reveal_strlit("--remove-invalid");
    reveal_strlit("--resume-from");
    reveal_strlit("--scan-entropy");
    reveal_strlit("--scan-strings");
    reveal_strlit("--scan-utf16");
    reveal_strlit("--scan-workers");
    reveal_strlit("--skip-duplicates");
    reveal_strlit("--string-min-len");
    reveal_strlit("--types");
    reveal_strlit("--validate-carved");
    reveal_strlit("--workers");
    reveal_strlit("--write-workers");
}

#[verifier::spinoff_prover]
#[verifier::rlimit(40)]
proof fn lemma_head_switched(c: ScanConfig, x: Seq<char>)
    requires
        x.len() > 0,
        x[0] == '-',
        !passes_text(c, x),
    ensures
        occurs(cli_head(c), x) ==> flag_on(c, x),
{
    lemma_occurs_concat();
    reveal_strlit("json");
    reveal_strlit("1");
    reveal_strlit("parquet");
    reveal_strlit("jsonl");
    reveal_strlit("csv");
}

proof fn lemma_head_present(c: ScanConfig)
    ensures
        occurs(cli_head(c), "--input"@),
        occurs(cli_head(c), "--output"@),
        occurs(cli_head(c), "--log-format"@),
        occurs(cli_head(c), "--progress-interval-secs"@),
        occurs(cli_head(c), "--metadata-backend"@),
{
    lemma_occurs_concat();
}

proof fn lemma_head_values(c: ScanConfig)
    ensures
        follows(cli_head(c), "--input"@, c.input_path@),
        follows(cli_head(c), "--output"@, c.output_path@),
        follows(cli_head(c), "--log-format"@, "json"@),
        follows(cli_head(c), "--progress-interval-secs"@, "1"@),
        follows(cli_head(c), "--metadata-backend"@, backend_name(c.metadata_backend)),
{
    lemma_follows_concat();
}

#[verifier::spinoff_prover]
#[verifier::rlimit(40)]
proof fn lemma_selection_switched(c: ScanConfig, x: Seq<char>)
    requires
        x.len() > 0,
        x[0] == '-',
        !passes_text(c, x),
    ensures
        occurs(cli_selection(c), x) ==> flag_on(c, x),
{
    lemma_occurs_concat();
    lemma_number_not_flag(c.string_min_len as nat, x);
    let p1 = opt_text_flag("--config-path"@, c.config_path);
    assert(occurs(p1, x) ==> flag_on(c, x));
    let p2 = flag_value_if(c.file_types@.len() > 0, "--types"@, join(string_views(c.file_types@), ","@));
    assert(occurs(p2, x) ==> flag_on(c, x));
    let p3 = flag_if(c.disable_zip, "--disable-zip"@);
    assert(occurs(p3, x) ==> flag_on(c, x));
    let p4 = flag_if(c.scan_strings, "--scan-strings"@);
    assert(occurs(p4, x) ==> flag_on(c, x));
    let p5 = flag_if(c.scan_utf16, "--scan-utf16"@);
    assert(occurs(p5, x) ==> flag_on(c, x));
    let p6 = flag_if(!c.scan_urls, "--no-scan-urls"@);
    assert(occurs(p6, x) ==> flag_on(c, x));
    let p7 = flag_if(!c.scan_emails, "--no-scan-emails"@);
    assert(occurs(p7, x) ==> flag_on(c, x));
    let p8 = flag_if(!c.scan_phones, "--no-scan-phones"@);
    assert(occurs(p8, x) ==> flag_on(c, x));
    let p9 = flag_value_if(c.string_min_len > 0 && c.string_min_len != 8, "--string-min-len"@, dec(c.string_min_len as nat));
    assert(occurs(p9, x) ==> flag_on(c, x));
    assert(occurs(p1 + p2, x) ==> flag_on(c, x));
    assert(occurs(p1 + p2 + p3, x) ==> flag_on(c, x));
    assert(occurs(p1 + p2 + p3 + p4, x) ==> flag_on(c, x));
    assert(occurs(p1 + p2 + p3 + p4 + p5, x) ==> flag_on(c, x));
    assert(occurs(p1 + p2 + p3 + p4 + p5 + p6, x) ==> flag_on(c, x));
    assert(occurs(p1 + p2 + p3 + p4 + p5 + p6 + p7, x) ==> flag_on(c, x));
    assert(occurs(p1 + p2 + p3 + p4 + p5 + p6 + p7 + p8, x) ==> flag_on(c, x));
    assert(occurs(p1 + p2 + p3 + p4 + p5 + p6 + p7 + p8 + p9, x) ==> flag_on(c, x));
    assert(cli_selection(c) =~= p1 + p2 + p3 + p4 + p5 + p6 + p7 + p8 + p9);
}

proof fn lemma_selection_present(c: ScanConfig)
    ensures
        (nonempty_opt(c.config_path) is Some) ==> occurs(cli_selection(c), "--config-path"@),
        (c.file_types@.len() > 0) ==> occurs(cli_selection(c), "--types"@),
        (c.disable_zip) ==> occurs(cli_selection(c), "--disable-zip"@),
        (c.scan_strings) ==> occurs(cli_selection(c), "--scan-strings"@),
        (c.scan_utf16) ==> occurs(cli_selection(c), "--scan-utf16"@),
        (!c.scan_urls) ==> occurs(cli_selection(c), "--no-scan-urls"@),
        (!c.scan_emails) ==> occurs(cli_selection(c), "--no-scan-emails"@),
        (!c.scan_phones) ==> occurs(cli_selection(c), "--no-scan-phones"@),
        (c.string_min_len > 0 && c.string_min_len != 8) ==> occurs(cli_selection(c), "--string-min-len"@),
{
    lemma_occurs_concat();
}

proof fn lemma_selection_values(c: ScanConfig)
    ensures
        (nonempty_opt(c.config_path) is Some) ==> follows(cli_selection(c), "--config-path"@, nonempty_opt(c.config_path).unwrap()),
        (c.file_types@.len() > 0) ==> follows(cli_selection(c), "--types"@, join(string_views(c.file_types@), ","@)),
        (c.string_min_len > 0 && c.string_min_len != 8) ==> follows(cli_selection(c), "--string-min-len"@, dec(c.string_min_len as nat)),
{
    lemma_follows_concat();
}

#[verifier::spinoff_prover]
#[verifier::rlimit(40)]
proof fn lemma_entropy_switched(c: ScanConfig, x: Seq<char>)
    requires
        x.len() > 0,
        x[0] == '-',
        !passes_text(c, x),
    ensures
        occurs(cli_entropy(c), x) ==> flag_on(c, x),
{
    lemma_occurs_concat();
    lemma_number_not_flag(c.entropy_threshold_milli as nat, x);
    if let Some(n) = c.entropy_window_bytes {
        lemma_number_not_flag(n as nat, x);
    }
}

proof fn lemma_entropy_present(c: ScanConfig)
    ensures
        (c.scan_entropy) ==> occurs(cli_entropy(c), "--scan-entropy"@),
        (c.scan_entropy && c.entropy_window_bytes is Some) ==> occurs(cli_entropy(c), "--entropy-window-bytes"@),
        (c.scan_entropy && c.entropy_threshold_milli != 7500) ==> occurs(cli_entropy(c), "--entropy-threshold"@),
{
    lemma_occurs_concat();
}

proof fn lemma_entropy_values(c: ScanConfig)
    ensures
        (c.scan_entropy && c.entropy_window_bytes is Some) ==> follows(cli_entropy(c), "--entropy-window-bytes"@, dec(c.entropy_window_bytes.unwrap() as nat)),
        (c.scan_entropy && c.entropy_threshold_milli != 7500) ==> follows(cli_entropy(c), "--entropy-threshold"@, milli_text(c.entropy_threshold_milli as nat)),
{
    lemma_follows_concat();
}

#[verifier::spinoff_prover]
#[verifier::rlimit(40)]
proof fn lemma_limits_switched(c: ScanConfig, x: Seq<char>)
    requires
        x.len() > 0,
        x[0] == '-',
        !passes_text(c, x),
    ensures
        occurs(cli_limits(c), x) ==> flag_on(c, x),
{
    lemma_occurs_concat();
    if let Some(n) = c.max_bytes {
        lemma_number_not_flag(n as nat, x);
    }
    if let Some(n) = c.max_chunks {
        lemma_number_not_flag(n as nat, x);
    }
    if let Some(n) = c.max_files {
        lemma_number_not_flag(n as nat, x);
    }
    if let Some(n) = c.max_memory_mib {
        lemma_number_not_flag(n as nat, x);
    }
    if let Some(n) = c.max_open_files {
        lemma_number_not_flag(n as nat, x);
    }
    let p1 = flag_if(c.gpu_enabled, "--gpu"@);
    assert(occurs(p1, x) ==> flag_on(c, x));
    let p2 = flag_if(c.compute_evidence_hash, "--compute-evidence-sha256"@);
    assert(occurs(p2, x) ==> flag_on(c, x));
    let p3 = opt_text_flag("--evidence-sha256"@, c.evidence_sha256);
    assert(occurs(p3, x) ==> flag_on(c, x));
    let p4 = opt_u64_flag("--max-bytes"@, c.max_bytes);
    assert(occurs(p4, x) ==> flag_on(c, x));
    let p5 = opt_u64_flag("--max-chunks"@, c.max_chunks);
    assert(occurs(p5, x) ==> flag_on(c, x));
    let p6 = opt_u64_flag("--max-files"@, c.max_files);
    assert(occurs(p6, x) ==> flag_on(c, x));
    let p7 = opt_u64_flag("--max-memory-mib"@, c.max_memory_mib);
    assert(occurs(p7, x) ==> flag_on(c, x));
    let p8 = opt_u64_flag("--max-open-files"@, c.max_open_files);
    assert(occurs(p8, x) ==> flag_on(c, x));
    assert(occurs(p1 + p2, x) ==> flag_on(c, x));
    assert(occurs(p1 + p2 + p3, x) ==> flag_on(c, x));
    assert(occurs(p1 + p2 + p3 + p4, x) ==> flag_on(c, x));
    assert(occurs(p1 + p2 + p3 + p4 + p5, x) ==> flag_on(c, x));
    assert(occurs(p1 + p2 + p3 + p4 + p5 + p6, x) ==> flag_on(c, x));
    assert(occurs(p1 + p2 + p3 + p4 + p5 + p6 + p7, x) ==> flag_on(c, x));
    assert(occurs(p1 + p2 + p3 + p4 + p5 + p6 + p7 + p8, x) ==> flag_on(c, x));
    assert(cli_limits(c) =~= p1 + p2 + p3 + p4 + p5 + p6 + p7 + p8);
}

proof fn lemma_limits_present(c: ScanConfig)
    ensures
        (c.gpu_enabled) ==> occurs(cli_limits(c), "--gpu"@),
        (c.compute_evidence_hash) ==> occurs(cli_limits(c), "--compute-evidence-sha256"@),
        (nonempty_opt(c.evidence_sha256) is Some) ==> occurs(cli_limits(c), "--evidence-sha256"@),
        (c.max_bytes is Some) ==> occurs(cli_limits(c), "--max-bytes"@),
        (c.max_chunks is Some) ==> occurs(cli_limits(c), "--max-chunks"@),
        (c.max_files is Some) ==> occurs(cli_limits(c), "--max-files"@),
        (c.max_memory_mib is Some) ==> occurs(cli_limits(c), "--max-memory-mib"@),
        (c.max_open_files is Some) ==> occurs(cli_limits(c), "--max-open-files"@),
{
    lemma_occurs_concat();
}

proof fn lemma_limits_values(c: ScanConfig)
    ensures
        (nonempty_opt(c.evidence_sha256) is Some) ==> follows(cli_limits(c), "--evidence-sha256"@, nonempty_opt(c.evidence_sha256).unwrap()),
        (c.max_bytes is Some) ==> follows(cli_limits(c), "--max-bytes"@, dec(c.max_bytes.unwrap() as nat)),
        (c.max_chunks is Some) ==> follows(cli_limits(c), "--max-chunks"@, dec(c.max_chunks.unwrap() as nat)),
        (c.max_files is Some) ==> follows(cli_limits(c), "--max-files"@, dec(c.max_files.unwrap() as nat)),
        (c.max_memory_mib is Some) ==> follows(cli_limits(c), "--max-memory-mib"@, dec(c.max_memory_mib.unwrap() as nat)),
        (c.max_open_files is Some) ==> follows(cli_limits(c), "--max-open-files"@, dec(c.max_open_files.unwrap() as nat)),
{
    lemma_follows_concat();
}

#[verifier::spinoff_prover]
#[verifier::rlimit(40)]
proof fn lemma_workers_switched(c: ScanConfig, x: Seq<char>)
    requires
        x.len() > 0,
        x[0] == '-',
        !passes_text(c, x),
    ensures
        occurs(cli_workers(c), x) ==> flag_on(c, x),
{
    lemma_occurs_concat();
    lemma_number_not_flag(c.workers as nat, x);
    lemma_number_not_flag(c.scan_workers as nat, x);
    lemma_number_not_flag(c.carve_workers as nat, x);
    lemma_number_not_flag(c.write_workers as nat, x);
    lemma_number_not_flag(c.chunk_size_mib as nat, x);
    if let Some(n) = c.overlap_kib {
        lemma_number_not_flag(n as nat, x);
    }
}

proof fn lemma_workers_present(c: ScanConfig)
    ensures
        (c.workers > 0) ==> occurs(cli_workers(c), "--workers"@),
        (c.scan_workers > 0) ==> occurs(cli_workers(c), "--scan-workers"@),
        (c.carve_workers > 0) ==> occurs(cli_workers(c), "--carve-workers"@),
        (c.write_workers > 0) ==> occurs(cli_workers(c), "--write-workers"@),
        occurs(cli_workers(c), "--chunk-size-mib"@),
        (c.overlap_kib is Some) ==> occurs(cli_workers(c), "--overlap-kib"@),
{
    lemma_occurs_concat();
}

proof fn lemma_workers_values(c: ScanConfig)
    ensures
        (c.workers > 0) ==> follows(cli_workers(c), "--workers"@, dec(c.workers as nat)),
        (c.scan_workers > 0) ==> follows(cli_workers(c), "--scan-workers"@, dec(c.scan_workers as nat)),
        (c.carve_workers > 0) ==> follows(cli_workers(c), "--carve-workers"@, dec(c.carve_workers as nat)),
        (c.write_workers > 0) ==> follows(cli_workers(c), "--write-workers"@, dec(c.write_workers as nat)),
        follows(cli_workers(c), "--chunk-size-mib"@, dec(c.chunk_size_mib as nat)),
        (c.overlap_kib is Some) ==> follows(cli_workers(c), "--overlap-kib"@, dec(c.overlap_kib.unwrap() as nat)),
{
    lemma_follows_concat();
}

#[verifier::spinoff_prover]
#[verifier::rlimit(40)]
proof fn lemma_modes_switched(c: ScanConfig, x: Seq<char>)
    requires
        x.len() > 0,
        x[0] == '-',
        !passes_text(c, x),
    ensures
        occurs(cli_modes(c), x) ==> flag_on(c, x),
{
    lemma_occurs_concat();
}

proof fn lemma_modes_present(c: ScanConfig)
    ensures
        (c.dry_run) ==> occurs(cli_modes(c), "--dry-run"@),
        (c.metadata_only) ==> occurs(cli_modes(c), "--metadata-only"@),
        (c.validate_carved) ==> occurs(cli_modes(c), "--validate-carved"@),
        (c.remove_invalid) ==> occurs(cli_modes(c), "--remove-invalid"@),
        (c.hash_algorithms@.len() > 0) ==> occurs(cli_modes(c), "--hash-algorithms"@),
        (c.dedupe) ==> occurs(cli_modes(c), "--dedupe"@),
        (c.skip_duplicates) ==> occurs(cli_modes(c), "--skip-duplicates"@),
        (nonempty_opt(c.checkpoint_path) is Some) ==> occurs(cli_modes(c), "--checkpoint-path"@),
        (nonempty_opt(c.resume_from) is Some) ==> occurs(cli_modes(c), "--resume-from"@),
{
    lemma_occurs_concat();
}

proof fn lemma_modes_values(c: ScanConfig)
    ensures
        (c.hash_algorithms@.len() > 0) ==> follows(cli_modes(c), "--hash-algorithms"@, join(string_views(c.hash_algorithms@), ","@)),
        (nonempty_opt(c.checkpoint_path) is Some) ==> follows(cli_modes(c), "--checkpoint-path"@, nonempty_opt(c.checkpoint_path).unwrap()),
        (nonempty_opt(c.resume_from) is Some) ==> follows(cli_modes(c), "--resume-from"@, nonempty_opt(c.resume_from).unwrap()),
{
    lemma_follows_concat();
}

proof fn lemma_flag_on_exact(c: ScanConfig)
    ensures
        flag_on(c, "--config-path"@) ==> (nonempty_opt(c.config_path) is Some),
        flag_on(c, "--types"@) ==> (c.file_types@.len() > 0),
        flag_on(c, "--disable-zip"@) ==> (c.disable_zip),
        flag_on(c, "--scan-strings"@) ==> (c.scan_strings),
        flag_on(c, "--scan-utf16"@) ==> (c.scan_utf16),
        flag_on(c, "--no-scan-urls"@) ==> (!c.scan_urls),
        flag_on(c, "--no-scan-emails"@) ==> (!c.scan_emails),
        flag_on(c, "--no-scan-phones"@) ==> (!c.scan_phones),
        flag_on(c, "--string-min-len"@) ==> (c.string_min_len > 0 && c.string_min_len != 8),
        flag_on(c, "--scan-entropy"@) ==> (c.scan_entropy),
        flag_on(c, "--entropy-window-bytes"@) ==> (c.scan_entropy && c.entropy_window_bytes is Some),
        flag_on(c, "--entropy-threshold"@) ==> (c.scan_entropy && c.entropy_threshold_milli != 7500),
        flag_on(c, "--gpu"@) ==> (c.gpu_enabled),
        flag_on(c, "--compute-evidence-sha256"@) ==> (c.compute_evidence_hash),
        flag_on(c, "--evidence-sha256"@) ==> (nonempty_opt(c.evidence_sha256) is Some),
        flag_on(c, "--max-bytes"@) ==> (c.max_bytes is Some),
        flag_on(c, "--max-chunks"@) ==> (c.max_chunks is Some),
        flag_on(c, "--max-files"@) ==> (c.max_files is Some),
        flag_on(c, "--max-memory-mib"@) ==> (c.max_memory_mib is Some),
        flag_on(c, "--max-open-files"@) ==> (c.max_open_files is Some),
        flag_on(c, "--workers"@) ==> (c.workers > 0),
        flag_on(c, "--scan-workers"@) ==> (c.scan_workers > 0),
        flag_on(c, "--carve-workers"@) ==> (c.carve_workers > 0),
        flag_on(c, "--write-workers"@) ==> (c.write_workers > 0),
        flag_on(c, "--overlap-kib"@) ==> (c.overlap_kib is Some),
        flag_on(c, "--dry-run"@) ==> (c.dry_run),
        flag_on(c, "--metadata-only"@) ==> (c.metadata_only),
        flag_on(c, "--validate-carved"@) ==> (c.validate_carved),
        flag_on(c, "--remove-invalid"@) ==> (c.remove_invalid),
        flag_on(c, "--hash-algorithms"@) ==> (c.hash_algorithms@.len() > 0),
        flag_on(c, "--dedupe"@) ==> (c.dedupe),
        flag_on(c, "--skip-duplicates"@) ==> (c.skip_duplicates),
        flag_on(c, "--checkpoint-path"@) ==> (nonempty_opt(c.checkpoint_path) is Some),
        flag_on(c, "--resume-from"@) ==> (nonempty_opt(c.resume_from) is Some),
{
    lemma_flag_texts();
}

proof fn lemma_args_switched(c: ScanConfig, x: Seq<char>)
    requires
        x.len() > 0,
        x[0] == '-',
        !passes_text(c, x),
    ensures
        occurs(cli_args(c), x) ==> flag_on(c, x),
{
    lemma_occurs_concat();
    lemma_head_switched(c, x);
    lemma_selection_switched(c, x);
    lemma_entropy_switched(c, x);
    lemma_limits_switched(c, x);
    lemma_workers_switched(c, x);
    lemma_modes_switched(c, x);
}

/// Each flag is on the command line exactly when the configuration asks for it:
/// the fixed head flags and the chunk size always; every other flag when its
/// field says so (`--no-scan-urls` when URL extraction is off, `--workers`
/// when a worker count is set, and so on), and never otherwise, unless a text
/// the configuration passes through is itself that flag.
pub proof fn lemma_flags_follow_fields(c: ScanConfig)
    ensures
        occurs(cli_args(c), "--input"@),
        occurs(cli_args(c), "--output"@),
        occurs(cli_args(c), "--log-format"@),
        occurs(cli_args(c), "--progress-interval-secs"@),
        occurs(cli_args(c), "--metadata-backend"@),
        (nonempty_opt(c.config_path) is Some) ==> occurs(cli_args(c), "--config-path"@),
        !(nonempty_opt(c.config_path) is Some) && !passes_text(c, "--config-path"@) ==> !occurs(cli_args(c), "--config-path"@),
        (c.file_types@.len() > 0) ==> occurs(cli_args(c), "--types"@),
        !(c.file_types@.len() > 0) && !passes_text(c, "--types"@) ==> !occurs(cli_args(c), "--types"@),
        (c.disable_zip) ==> occurs(cli_args(c), "--disable-zip"@),
        !(c.disable_zip) && !passes_text(c, "--disable-zip"@) ==> !occurs(cli_args(c), "--disable-zip"@),
        (c.scan_strings) ==> occurs(cli_args(c), "--scan-strings"@),
        !(c.scan_strings) && !passes_text(c, "--scan-strings"@) ==> !occurs(cli_args(c), "--scan-strings"@),
        (c.scan_utf16) ==> occurs(cli_args(c), "--scan-utf16"@),
        !(c.scan_utf16) && !passes_text(c, "--scan-utf16"@) ==> !occurs(cli_args(c), "--scan-utf16"@),
        (!c.scan_urls) ==> occurs(cli_args(c), "--no-scan-urls"@),
        !(!c.scan_urls) && !passes_text(c, "--no-scan-urls"@) ==> !occurs(cli_args(c), "--no-scan-urls"@),
        (!c.scan_emails) ==> occurs(cli_args(c), "--no-scan-emails"@),
        !(!c.scan_emails) && !passes_text(c, "--no-scan-emails"@) ==> !occurs(cli_args(c), "--no-scan-emails"@),
        (!c.scan_phones) ==> occurs(cli_args(c), "--no-scan-phones"@),
        !(!c.scan_phones) && !passes_text(c, "--no-scan-phones"@) ==> !occurs(cli_args(c), "--no-scan-phones"@),
        (c.string_min_len > 0 && c.string_min_len != 8) ==> occurs(cli_args(c), "--string-min-len"@),
        !(c.string_min_len > 0 && c.string_min_len != 8) && !passes_text(c, "--string-min-len"@) ==> !occurs(cli_args(c), "--string-min-len"@),
        (c.scan_entropy) ==> occurs(cli_args(c), "--scan-entropy"@),
        !(c.scan_entropy) && !passes_text(c, "--scan-entropy"@) ==> !occurs(cli_args(c), "--scan-entropy"@),
        (c.scan_entropy && c.entropy_window_bytes is Some) ==> occurs(cli_args(c), "--entropy-window-bytes"@),
        !(c.scan_entropy && c.entropy_window_bytes is Some) && !passes_text(c, "--entropy-window-bytes"@) ==> !occurs(cli_args(c), "--entropy-window-bytes"@),
        (c.scan_entropy && c.entropy_threshold_milli != 7500) ==> occurs(cli_args(c), "--entropy-threshold"@),
        !(c.scan_entropy && c.entropy_threshold_milli != 7500) && !passes_text(c, "--entropy-threshold"@) ==> !occurs(cli_args(c), "--entropy-threshold"@),
        (c.gpu_enabled) ==> occurs(cli_args(c), "--gpu"@),
        !(c.gpu_enabled) && !passes_text(c, "--gpu"@) ==> !occurs(cli_args(c), "--gpu"@),
        (c.compute_evidence_hash) ==> occurs(cli_args(c), "--compute-evidence-sha256"@),
        !(c.compute_evidence_hash) && !passes_text(c, "--compute-evidence-sha256"@) ==> !occurs(cli_args(c), "--compute-evidence-sha256"@),
        (nonempty_opt(c.evidence_sha256) is Some) ==> occurs(cli_args(c), "--evidence-sha256"@),
        !(nonempty_opt(c.evidence_sha256) is Some) && !passes_text(c, "--evidence-sha256"@) ==> !occurs(cli_args(c), "--evidence-sha256"@),
        (c.max_bytes is Some) ==> occurs(cli_args(c), "--max-bytes"@),
        !(c.max_bytes is Some) && !passes_text(c, "--max-bytes"@) ==> !occurs(cli_args(c), "--max-bytes"@),
        (c.max_chunks is Some) ==> occurs(cli_args(c), "--max-chunks"@),
        !(c.max_chunks is Some) && !passes_text(c, "--max-chunks"@) ==> !occurs(cli_args(c), "--max-chunks"@),
        (c.max_files is Some) ==> occurs(cli_args(c), "--max-files"@),
        !(c.max_files is Some) && !passes_text(c, "--max-files"@) ==> !occurs(cli_args(c), "--max-files"@),
        (c.max_memory_mib is Some) ==> occurs(cli_args(c), "--max-memory-mib"@),
        !(c.max_memory_mib is Some) && !passes_text(c, "--max-memory-mib"@) ==> !occurs(cli_args(c), "--max-memory-mib"@),
        (c.max_open_files is Some) ==> occurs(cli_args(c), "--max-open-files"@),
        !(c.max_open_files is Some) && !passes_text(c, "--max-open-files"@) ==> !occurs(cli_args(c), "--max-open-files"@),
        (c.workers > 0) ==> occurs(cli_args(c), "--workers"@),
        !(c.workers > 0) && !passes_text(c, "--workers"@) ==> !occurs(cli_args(c), "--workers"@),
        (c.scan_workers > 0) ==> occurs(cli_args(c), "--scan-workers"@),
        !(c.scan_workers > 0) && !passes_text(c, "--scan-workers"@) ==> !occurs(cli_args(c), "--scan-workers"@),
        (c.carve_workers > 0) ==> occurs(cli_args(c), "--carve-workers"@),
        !(c.carve_workers > 0) && !passes_text(c, "--carve-workers"@) ==> !occurs(cli_args(c), "--carve-workers"@),
        (c.write_workers > 0) ==> occurs(cli_args(c), "--write-workers"@),
        !(c.write_workers > 0) && !passes_text(c, "--write-workers"@) ==> !occurs(cli_args(c), "--write-workers"@),
        occurs(cli_args(c), "--chunk-size-mib"@),
        (c.overlap_kib is Some) ==> occurs(cli_args(c), "--overlap-kib"@),
        !(c.overlap_kib is Some) && !passes_text(c, "--overlap-kib"@) ==> !occurs(cli_args(c), "--overlap-kib"@),
        (c.dry_run) ==> occurs(cli_args(c), "--dry-run"@),
        !(c.dry_run) && !passes_text(c, "--dry-run"@) ==> !occurs(cli_args(c), "--dry-run"@),
        (c.metadata_only) ==> occurs(cli_args(c), "--metadata-only"@),
        !(c.metadata_only) && !passes_text(c, "--metadata-only"@) ==> !occurs(cli_args(c), "--metadata-only"@),
        (c.validate_carved) ==> occurs(cli_args(c), "--validate-carved"@),
        !(c.validate_carved) && !passes_text(c, "--validate-carved"@) ==> !occurs(cli_args(c), "--validate-carved"@),
        (c.remove_invalid) ==> occurs(cli_args(c), "--remove-invalid"@),
        !(c.remove_invalid) && !passes_text(c, "--remove-invalid"@) ==> !occurs(cli_args(c), "--remove-invalid"@),
        (c.hash_algorithms@.len() > 0) ==> occurs(cli_args(c), "--hash-algorithms"@),
        !(c.hash_algorithms@.len() > 0) && !passes_text(c, "--hash-algorithms"@) ==> !occurs(cli_args(c), "--hash-algorithms"@),
        (c.dedupe) ==> occurs(cli_args(c), "--dedupe"@),
        !(c.dedupe) && !passes_text(c, "--dedupe"@) ==> !occurs(cli_args(c), "--dedupe"@),
        (c.skip_duplicates) ==> occurs(cli_args(c), "--skip-duplicates"@),
        !(c.skip_duplicates) && !passes_text(c, "--skip-duplicates"@) ==> !occurs(cli_args(c), "--skip-duplicates"@),
        (nonempty_opt(c.checkpoint_path) is Some) ==> occurs(cli_args(c), "--checkpoint-path"@),
        !(nonempty_opt(c.checkpoint_path) is Some) && !passes_text(c, "--checkpoint-path"@) ==> !occurs(cli_args(c), "--checkpoint-path"@),
        (nonempty_opt(c.resume_from) is Some) ==> occurs(cli_args(c), "--resume-from"@),
        !(nonempty_opt(c.resume_from) is Some) && !passes_text(c, "--resume-from"@) ==> !occurs(cli_args(c), "--resume-from"@),
{
    lemma_occurs_concat();
    lemma_flag_texts();
    lemma_flag_on_exact(c);
    lemma_head_present(c);
    lemma_selection_present(c);
    lemma_entropy_present(c);
    lemma_limits_present(c);
    lemma_workers_present(c);
    lemma_modes_present(c);
    if !passes_text(c, "--config-path"@) {
        lemma_args_switched(c, "--config-path"@);
    }
    if !passes_text(c, "--types"@) {
        lemma_args_switched(c, "--types"@);
    }
    if !passes_text(c, "--disable-zip"@) {
        lemma_args_switched(c, "--disable-zip"@);
    }
    if !passes_text(c, "--scan-strings"@) {
        lemma_args_switched(c, "--scan-strings"@);
    }
    if !passes_text(c, "--scan-utf16"@) {
        lemma_args_switched(c, "--scan-utf16"@);
    }
    if !passes_text(c, "--no-scan-urls"@) {
        lemma_args_switched(c, "--no-scan-urls"@);
    }
    if !passes_text(c, "--no-scan-emails"@) {
        lemma_args_switched(c, "--no-scan-emails"@);
    }
    if !passes_text(c, "--no-scan-phones"@) {
        lemma_args_switched(c, "--no-scan-phones"@);
    }
    if !passes_text(c, "--string-min-len"@) {
        lemma_args_switched(c, "--string-min-len"@);
    }
    if !passes_text(c, "--scan-entropy"@) {
        lemma_args_switched(c, "--scan-entropy"@);
    }
    if !passes_text(c, "--entropy-window-bytes"@) {
        lemma_args_switched(c, "--entropy-window-bytes"@);
    }
    if !passes_text(c, "--entropy-threshold"@) {
        lemma_args_switched(c, "--entropy-threshold"@);
    }
    if !passes_text(c, "--gpu"@) {
        lemma_args_switched(c, "--gpu"@);
    }
    if !passes_text(c, "--compute-evidence-sha256"@) {
        lemma_args_switched(c, "--compute-evidence-sha256"@);
    }
    if !passes_text(c, "--evidence-sha256"@) {
        lemma_args_switched(c, "--evidence-sha256"@);
    }
    if !passes_text(c, "--max-bytes"@) {
        lemma_args_switched(c, "--max-bytes"@);
    }
    if !passes_text(c, "--max-chunks"@) {
        lemma_args_switched(c, "--max-chunks"@);
    }
    if !passes_text(c, "--max-files"@) {
        lemma_args_switched(c, "--max-files"@);
    }
    if !passes_text(c, "--max-memory-mib"@) {
        lemma_args_switched(c, "--max-memory-mib"@);
    }
    if !passes_text(c, "--max-open-files"@) {
        lemma_args_switched(c, "--max-open-files"@);
    }
    if !passes_text(c, "--workers"@) {
        lemma_args_switched(c, "--workers"@);
    }
    if !passes_text(c, "--scan-workers"@) {
        lemma_args_switched(c, "--scan-workers"@);
    }
    if !passes_text(c, "--carve-workers"@) {
        lemma_args_switched(c, "--carve-workers"@);
    }
    if !passes_text(c, "--write-workers"@) {
        lemma_args_switched(c, "--write-workers"@);
    }
    if !passes_text(c, "--overlap-kib"@) {
        lemma_args_switched(c, "--overlap-kib"@);
    }
    if !passes_text(c, "--dry-run"@) {
        lemma_args_switched(c, "--dry-run"@);
    }
    if !passes_text(c, "--metadata-only"@) {
        lemma_args_switched(c, "--metadata-only"@);
    }
    if !passes_text(c, "--validate-carved"@) {
        lemma_args_switched(c, "--validate-carved"@);
    }
    if !passes_text(c, "--remove-invalid"@) {
        lemma_args_switched(c, "--remove-invalid"@);
    }
    if !passes_text(c, "--hash-algorithms"@) {
        lemma_args_switched(c, "--hash-algorithms"@);
    }
    if !passes_text(c, "--dedupe"@) {
        lemma_args_switched(c, "--dedupe"@);
    }
    if !passes_text(c, "--skip-duplicates"@) {
        lemma_args_switched(c, "--skip-duplicates"@);
    }
    if !passes_text(c, "--checkpoint-path"@) {
        lemma_args_switched(c, "--checkpoint-path"@);
    }
    if !passes_text(c, "--resume-from"@) {
        lemma_args_switched(c, "--resume-from"@);
    }
}

/// Each flag that takes a value is followed by it: the paths, the file-type
/// and hash lists joined with commas, the numbers in decimal, and the fixed
/// log format, progress interval and metadata backend.
pub proof fn lemma_flag_values(c: ScanConfig)
    ensures
        follows(cli_args(c), "--input"@, c.input_path@),
        follows(cli_args(c), "--output"@, c.output_path@),
        follows(cli_args(c), "--log-format"@, "json"@),
        follows(cli_args(c), "--progress-interval-secs"@, "1"@),
        follows(cli_args(c), "--metadata-backend"@, backend_name(c.metadata_backend)),
        (nonempty_opt(c.config_path) is Some) ==> follows(cli_args(c), "--config-path"@, nonempty_opt(c.config_path).unwrap()),
        (c.file_types@.len() > 0) ==> follows(cli_args(c), "--types"@, join(string_views(c.file_types@), ","@)),
        (c.string_min_len > 0 && c.string_min_len != 8) ==> follows(cli_args(c), "--string-min-len"@, dec(c.string_min_len as nat)),
        (c.scan_entropy && c.entropy_window_bytes is Some) ==> follows(cli_args(c), "--entropy-window-bytes"@, dec(c.entropy_window_bytes.unwrap() as nat)),
        (c.scan_entropy && c.entropy_threshold_milli != 7500) ==> follows(cli_args(c), "--entropy-threshold"@, milli_text(c.entropy_threshold_milli as nat)),
        (nonempty_opt(c.evidence_sha256) is Some) ==> follows(cli_args(c), "--evidence-sha256"@, nonempty_opt(c.evidence_sha256).unwrap()),
        (c.max_bytes is Some) ==> follows(cli_args(c), "--max-bytes"@, dec(c.max_bytes.unwrap() as nat)),
        (c.max_chunks is Some) ==> follows(cli_args(c), "--max-chunks"@, dec(c.max_chunks.unwrap() as nat)),
        (c.max_files is Some) ==> follows(cli_args(c), "--max-files"@, dec(c.max_files.unwrap() as nat)),
        (c.max_memory_mib is Some) ==> follows(cli_args(c), "--max-memory-mib"@, dec(c.max_memory_mib.unwrap() as nat)),
        (c.max_open_files is Some) ==> follows(cli_args(c), "--max-open-files"@, dec(c.max_open_files.unwrap() as nat)),
        (c.workers > 0) ==> follows(cli_args(c), "--workers"@, dec(c.workers as nat)),
        (c.scan_workers > 0) ==> follows(cli_args(c), "--scan-workers"@, dec(c.scan_workers as nat)),
        (c.carve_workers > 0) ==> follows(cli_args(c), "--carve-workers"@, dec(c.carve_workers as nat)),
        (c.write_workers > 0) ==> follows(cli_args(c), "--write-workers"@, dec(c.write_workers as nat)),
        follows(cli_args(c), "--chunk-size-mib"@, dec(c.chunk_size_mib as nat)),
        (c.overlap_kib is Some) ==> follows(cli_args(c), "--overlap-kib"@, dec(c.overlap_kib.unwrap() as nat)),
        (c.hash_algorithms@.len() > 0) ==> follows(cli_args(c), "--hash-algorithms"@, join(string_views(c.hash_algorithms@), ","@)),
        (nonempty_opt(c.checkpoint_path) is Some) ==> follows(cli_args(c), "--checkpoint-path"@, nonempty_opt(c.checkpoint_path).unwrap()),
        (nonempty_opt(c.resume_from) is Some) ==> follows(cli_args(c), "--resume-from"@, nonempty_opt(c.resume_from).unwrap()),
{
    lemma_follows_concat();
    lemma_head_values(c);
    lemma_selection_values(c);
    lemma_entropy_values(c);
    lemma_limits_values(c);
    lemma_workers_values(c);
    lemma_modes_values(c);
}

} // verus!
