//! Progress parsing from SwiftBeaver's log messages, and duration/size formatting.

use vstd::prelude::*;

use crate::scan::{after_char, after_char_exec_pub, before_char, before_char_exec_pub};
use crate::backend::progress::{json_is_value, json_is_value_of, json_text_at, json_text_at_of};
use crate::text::{
    lead_count,
    append_str, ascii_lower_seq, chars_of, contains_char, copy_range, dec, decimal_literal_ok, decimal_literal_ok_exec, eq_str,
    has_char, has_prefix, has_suffix, is_digit, digit_value, parse_u64, parse_u64_spec,
    push_dec, split_ws, starts_with_str, ends_with_str, string_of, string_of_str,
    to_ascii_lower, trim, trim_ws, views, ws_tokens, lowercase, unicode_lowercase,
};

verus! {

/// Scan progress snapshot.
///
/// `pct` and `rate_mib` hold the decimal literal that SwiftBeaver reported, one
/// that the standard parser for binary floating point accepts; `None` stands for zero.
#[derive(Debug, Clone)]
pub struct ScanProgress {
    pub bytes_scanned: u64,
    pub total_bytes: u64,
    pub pct: Option<String>,
    pub hits: u64,
    pub files: u64,
    pub rate_mib: Option<String>,
    pub eta_secs: Option<u64>,
}

/// Mathematical model of a [`ScanProgress`].
pub struct ProgressView {
    pub bytes_scanned: u64,
    pub total_bytes: u64,
    pub pct: Option<Seq<char>>,
    pub hits: u64,
    pub files: u64,
    pub rate_mib: Option<Seq<char>>,
    pub eta_secs: Option<u64>,
}

pub open spec fn opt_view(o: Option<String>) -> Option<Seq<char>> {
    match o {
        Some(s) => Some(s@),
        None => None,
    }
}

impl View for ScanProgress {
    type V = ProgressView;

    open spec fn view(&self) -> ProgressView {
        ProgressView {
            bytes_scanned: self.bytes_scanned,
            total_bytes: self.total_bytes,
            pct: opt_view(self.pct),
            hits: self.hits,
            files: self.files,
            rate_mib: opt_view(self.rate_mib),
            eta_secs: self.eta_secs,
        }
    }
}

pub open spec fn empty_progress() -> ProgressView {
    ProgressView {
        bytes_scanned: 0,
        total_bytes: 0,
        pct: None,
        hits: 0,
        files: 0,
        rate_mib: None,
        eta_secs: None,
    }
}

impl ScanProgress {
    /// All counters zero, no ETA.
    pub fn empty() -> (r: Self)
        ensures
            r@ == empty_progress(),
    {
        ScanProgress {
            bytes_scanned: 0,
            total_bytes: 0,
            pct: None,
            hits: 0,
            files: 0,
            rate_mib: None,
            eta_secs: None,
        }
    }

    pub open spec fn eta_text(&self) -> Seq<char> {
        match self.eta_secs {
            Some(secs) => duration_text(secs),
            None => "calculating..."@,
        }
    }

    /// The ETA as a human readable duration, or `calculating...` when unknown.
    pub fn eta_formatted(&self) -> (r: String)
        ensures
            r@ == self.eta_text(),
    {
        match self.eta_secs {
            Some(secs) => format_duration(secs),
            None => string_of_str("calculating..."),
        }
    }
}

impl Default for ScanProgress {
    fn default() -> (r: Self)
        ensures
            r@ == empty_progress(),
    {
        ScanProgress::empty()
    }
}

// ---------------------------------------------------------------------------
// Durations and sizes
// ---------------------------------------------------------------------------

pub open spec fn duration_text(secs: u64) -> Seq<char> {
    if secs < 60 {
        dec(secs as nat) + "s"@
    } else if secs < 3600 {
        dec((secs / 60) as nat) + "m "@ + dec((secs % 60) as nat) + "s"@
    } else {
        dec((secs / 3600) as nat) + "h "@ + dec(((secs % 3600) / 60) as nat) + "m"@
    }
}

/// Format seconds into human readable duration.
pub fn format_duration(secs: u64) -> (r: String)
    ensures
        r@ == duration_text(secs),
{
    let mut out: Vec<char> = Vec::new();
    if secs < 60 {
        push_dec(&mut out, secs);
        append_str(&mut out, "s");
    } else if secs < 3600 {
        push_dec(&mut out, secs / 60);
        append_str(&mut out, "m ");
        push_dec(&mut out, secs % 60);
        append_str(&mut out, "s");
    } else {
        push_dec(&mut out, secs / 3600);
        append_str(&mut out, "h ");
        push_dec(&mut out, (secs % 3600) / 60);
        append_str(&mut out, "m");
    }
    string_of(&out)
}

/// `q` rounded from `a / d` to the nearest integer, ties to even.
pub open spec fn round_div_even(a: nat, d: nat) -> nat
    recommends
        d > 0,
{
    let q = a / d;
    let r = a % d;
    if 2 * r > d || (2 * r == d && q % 2 == 1) {
        q + 1
    } else {
        q
    }
}

pub open spec fn pow2n(e: nat) -> nat
    decreases e,
{
    if e == 0 {
        1
    } else {
        2 * pow2n((e - 1) as nat)
    }
}

/// Number of low bits of `n` that do not fit in a 53-bit significand.
pub open spec fn excess_bits(n: nat) -> nat
    decreases n,
{
    if n < 0x20_0000_0000_0000 {
        0
    } else {
        1 + excess_bits(n / 2)
    }
}

/// The value of `n` converted to binary64: `n` rounded to 53 significant bits, ties to even.
pub open spec fn binary64_value(n: nat) -> nat {
    let s = excess_bits(n);
    round_div_even(n, pow2n(s)) * pow2n(s)
}

/// The rendering of `n / unit` with `scale`-ths precision (10 or 100) that
/// binary floating point gives: `n` is first rounded to binary64, the exact
/// quotient is then rounded to the precision, ties to even.
pub open spec fn fixed_text(n: nat, unit: nat, scale: nat) -> Seq<char> {
    let units = round_div_even(binary64_value(n) * scale, unit);
    let frac = units % scale;
    dec(units / scale) + "."@ + (if scale == 100 && frac < 10 {
        "0"@
    } else {
        Seq::empty()
    }) + dec(frac)
}

pub fn round_div_even_exec(a: u128, d: u128) -> (r: u128)
    requires
        d > 0,
        a / d < u128::MAX,
    ensures
        r == round_div_even(a as nat, d as nat),
{
    let q = a / d;
    let r = a % d;
    if r > d - r || (r == d - r && q % 2 == 1) {
        q + 1
    } else {
        q
    }
}

proof fn lemma_pow2n_pos(e: nat)
    ensures
        pow2n(e) >= 1,
    decreases e,
{
    if e > 0 {
        lemma_pow2n_pos((e - 1) as nat);
    }
}

/// Computes `binary64_value(n)`.
pub fn binary64_value_exec(n: u64) -> (r: u128)
    ensures
        r == binary64_value(n as nat),
        r <= 0x2_0000_0000_0000_0000u128,
{
    let mut m: u64 = n;
    let mut d: u128 = 1;
    let ghost mut s: nat = 0;
    while m >= 0x20_0000_0000_0000
        invariant
            d == pow2n(s),
            1 <= d <= 0x1000,
            m as nat == (n as nat) / (d as nat),
            excess_bits(n as nat) == s + excess_bits(m as nat),
            m as nat * d as nat <= n as nat,
        decreases m,
    {
        proof {
            vstd::arithmetic::div_mod::lemma_div_denominator(n as int, d as int, 2);
            assert(d < 0x800) by (nonlinear_arith)
                requires
                    m as nat * d as nat <= n as nat,
                    m >= 0x20_0000_0000_0000,
                    n <= u64::MAX,
                    d >= 1,
            ;
            assert((m / 2) as nat * (d * 2) as nat <= m as nat * d as nat) by (nonlinear_arith)
                requires
                    d >= 1,
            ;
        }
        m = m / 2;
        d = d * 2;
        proof {
            s = s + 1;
        }
    }
    let q = round_div_even_exec(n as u128, d);
    proof {
        assert(q <= (n as nat) / (d as nat) + 1);
        assert(q as nat * d as nat <= n as nat + d as nat) by (nonlinear_arith)
            requires
                q <= (n as nat) / (d as nat) + 1,
                d >= 1,
        {
            vstd::arithmetic::div_mod::lemma_fundamental_div_mod(n as int, d as int);
            vstd::arithmetic::div_mod::lemma_mod_pos_bound(n as int, d as int);
        }
    }
    q * d
}


/// Appends `fixed_text(n, unit, scale)`.
pub fn push_fixed(out: &mut Vec<char>, n: u64, unit: u128, scale: u128)
    requires
        unit >= 1024,
        unit <= 0x100_0000_0000,
        scale == 10 || scale == 100,
    ensures
        final(out)@ == old(out)@ + fixed_text(n as nat, unit as nat, scale as nat),
{
    let v = binary64_value_exec(n);
    assert(v * scale <= 0x2_0000_0000_0000_0000u128 * 100) by (nonlinear_arith)
        requires
            v <= 0x2_0000_0000_0000_0000u128,
            scale <= 100,
    ;
    let a = v * scale;
    assert(a / unit < 0x8000_0000_0000_0000u128) by (nonlinear_arith)
        requires
            a <= 0x2_0000_0000_0000_0000u128 * 100,
            unit >= 1024,
    ;
    let units = round_div_even_exec(a, unit);
    assert(units <= a / unit + 1);
    assert(units / scale <= units);
    assert(units / scale < 0x1_0000_0000_0000_0000u128);
    let whole = (units / scale) as u64;
    let frac = (units % scale) as u64;
    push_dec(out, whole);
    out.push('.');
    if scale == 100 && frac < 10 {
        out.push('0');
    }
    push_dec(out, frac);
    proof {
        let e: Seq<char> = if scale == 100 && frac < 10 {
            "0"@
        } else {
            Seq::empty()
        };
        reveal_strlit("0");
        reveal_strlit(".");
        assert(final(out)@ =~= old(out)@ + fixed_text(n as nat, unit as nat, scale as nat));
    }
}

pub open spec fn bytes_text(bytes: u64) -> Seq<char> {
    if bytes < 1024 {
        dec(bytes as nat) + " B"@
    } else if bytes < 1048576 {
        fixed_text(bytes as nat, 1024, 100) + " KB"@
    } else if bytes < 1073741824 {
        fixed_text(bytes as nat, 1048576, 100) + " MB"@
    } else if bytes < 1099511627776 {
        fixed_text(bytes as nat, 1073741824, 100) + " GB"@
    } else {
        fixed_text(bytes as nat, 1099511627776, 100) + " TB"@
    }
}

/// Format bytes into human readable size, with two decimals from 1 KB on.
pub fn format_bytes(bytes: u64) -> (r: String)
    ensures
        r@ == bytes_text(bytes),
{
    let mut out: Vec<char> = Vec::new();
    if bytes < 1024 {
        push_dec(&mut out, bytes);
        append_str(&mut out, " B");
    } else if bytes < 1048576 {
        push_fixed(&mut out, bytes, 1024, 100);
        append_str(&mut out, " KB");
    } else if bytes < 1073741824 {
        push_fixed(&mut out, bytes, 1048576, 100);
        append_str(&mut out, " MB");
    } else if bytes < 1099511627776 {
        push_fixed(&mut out, bytes, 1073741824, 100);
        append_str(&mut out, " GB");
    } else {
        push_fixed(&mut out, bytes, 1099511627776, 100);
        append_str(&mut out, " TB");
    }
    string_of(&out)
}


// ---------------------------------------------------------------------------
// ETA values
// ---------------------------------------------------------------------------

/// Seconds per unit letter of an ETA (`s`, `m`, `h`, either case); 0 for other characters.
pub open spec fn unit_seconds(c: char) -> nat {
    if c == 's' || c == 'S' {
        1
    } else if c == 'm' || c == 'M' {
        60
    } else if c == 'h' || c == 'H' {
        3600
    } else {
        0
    }
}

/// Scanner state over an ETA such as `1h2m3s`: completed total, the number
/// being read, whether that number has digits, and whether a unit was seen.
pub struct EtaScan {
    pub total: nat,
    pub current: nat,
    pub saw_digit: bool,
    pub saw_unit: bool,
}

pub open spec fn eta_step(st: EtaScan, c: char) -> Option<EtaScan> {
    if is_digit(c) {
        let next = st.current * 10 + digit_value(c);
        if next > u64::MAX {
            None
        } else {
            Some(EtaScan { current: next, saw_digit: true, ..st })
        }
    } else if unit_seconds(c) == 0 || !st.saw_digit {
        None
    } else {
        let total = st.total + st.current * unit_seconds(c);
        if st.current * unit_seconds(c) > u64::MAX || total > u64::MAX {
            None
        } else {
            Some(EtaScan { total, current: 0, saw_digit: false, saw_unit: true })
        }
    }
}

/// The scanner state after reading all of `s`, or `None` once a character is
/// rejected or a value leaves the `u64` range.
pub open spec fn eta_scan(s: Seq<char>) -> Option<EtaScan>
    decreases s.len(),
{
    if s.len() == 0 {
        Some(EtaScan { total: 0, current: 0, saw_digit: false, saw_unit: false })
    } else {
        match eta_scan(s.drop_last()) {
            Some(st) => eta_step(st, s.last()),
            None => None,
        }
    }
}

/// Seconds denoted by a SwiftBeaver `eta=` value.
pub open spec fn eta_spec(value: Seq<char>) -> Option<u64> {
    let v = trim(value);
    if v.len() == 0 || ascii_lower_seq(v) == "n/a"@ || v == "None"@ {
        None
    } else if parse_u64_spec(v) is Some {
        parse_u64_spec(v)
    } else {
        match eta_scan(v) {
            None => None,
            Some(st) => if st.saw_digit {
                if st.total + st.current > u64::MAX {
                    None
                } else {
                    Some((st.total + st.current) as u64)
                }
            } else if st.saw_unit {
                Some(st.total as u64)
            } else {
                None
            },
        }
    }
}

proof fn lemma_eta_scan_none_sticky(s: Seq<char>, i: int)
    requires
        0 <= i <= s.len(),
        eta_scan(s.take(i)) is None,
    ensures
        eta_scan(s) is None,
    decreases s.len() - i,
{
    if i < s.len() {
        assert(s.take(i + 1).drop_last() =~= s.take(i));
        lemma_eta_scan_none_sticky(s, i + 1);
    } else {
        assert(s.take(i) =~= s);
    }
}

/// Parse a SwiftBeaver `eta=` value into seconds.
///
/// Accepts `N/A` (returns `None`), bare integers (seconds), single-unit values
/// like `5s`, `2m`, `1h`, and combinations like `1h2m`, `1m30s`, `1h2m3s`.
/// Unknown forms and values beyond `u64` return `None`.
pub fn parse_eta(value: &str) -> (r: Option<u64>)
    ensures
        r == eta_spec(value@),
{
    let raw = chars_of(value);
    let v = trim_ws(&raw);
    let lower = to_ascii_lower(&v);
    if v.len() == 0 || eq_str(&lower, "n/a") || eq_str(&v, "None") {
        return None;
    }
    match parse_u64(&v) {
        Some(n) => {
            return Some(n);
        },
        None => {},
    }
    let mut total: u64 = 0;
    let mut current: u64 = 0;
    let mut saw_unit = false;
    let mut saw_digit = false;
    let mut i: usize = 0;
    assert(v@.take(0) =~= Seq::<char>::empty());
    while i < v.len()
        invariant
            i <= v@.len(),
            v@ == trim(value@),
            !(v@.len() == 0 || ascii_lower_seq(v@) == "n/a"@ || v@ == "None"@),
            parse_u64_spec(v@) is None,
            eta_scan(v@.take(i as int)) == Some(
                EtaScan {
                    total: total as nat,
                    current: current as nat,
                    saw_digit,
                    saw_unit,
                },
            ),
        decreases v@.len() - i,
    {
        let ch = v[i];
        let ghost st = EtaScan {
            total: total as nat,
            current: current as nat,
            saw_digit,
            saw_unit,
        };
        assert(v@.take(i + 1).drop_last() =~= v@.take(i as int));
        assert(v@.take(i + 1).last() == ch);
        if '0' <= ch && ch <= '9' {
            let d = (ch as u32 - '0' as u32) as u64;
            if current > (u64::MAX - d) / 10 {
                proof {
                    assert(current * 10 + d > u64::MAX) by (nonlinear_arith)
                        requires
                            current > (u64::MAX - d) / 10,
                            d <= 9,
                    ;
                    lemma_eta_scan_none_sticky(v@, i + 1);
                }
                return None;
            }
            assert(current * 10 + d <= u64::MAX) by (nonlinear_arith)
                requires
                    current <= (u64::MAX - d) / 10,
                    d <= 9,
            ;
            current = current * 10 + d;
            saw_digit = true;
        } else {
            let mult: u64 = if ch == 's' || ch == 'S' {
                1
            } else if ch == 'm' || ch == 'M' {
                60
            } else if ch == 'h' || ch == 'H' {
                3600
            } else {
                0
            };
            if mult == 0 || !saw_digit {
                proof {
                    lemma_eta_scan_none_sticky(v@, i + 1);
                }
                return None;
            }
            if current > u64::MAX / mult {
                proof {
                    assert(current * mult > u64::MAX) by (nonlinear_arith)
                        requires
                            current > u64::MAX / mult,
                            mult > 0,
                    ;
                    lemma_eta_scan_none_sticky(v@, i + 1);
                }
                return None;
            }
            assert(current * mult <= u64::MAX) by (nonlinear_arith)
                requires
                    current <= u64::MAX / mult,
                    mult > 0,
            ;
            let add = current * mult;
            if total > u64::MAX - add {
                proof {
                    lemma_eta_scan_none_sticky(v@, i + 1);
                }
                return None;
            }
            total = total + add;
            current = 0;
            saw_digit = false;
            saw_unit = true;
        }
        i = i + 1;
    }
    assert(v@.take(v@.len() as int) =~= v@);
    if saw_digit {
        if total > u64::MAX - current {
            return None;
        }
        Some(total + current)
    } else if saw_unit {
        Some(total)
    } else {
        None
    }
}


// ---------------------------------------------------------------------------
// Progress messages
// ---------------------------------------------------------------------------

/// The number in a legacy `eta_secs=` value: `None` for `None`, else the value
/// with an enclosing `Some(...)` removed, parsed as `u64`.
pub open spec fn legacy_eta(v: Seq<char>) -> Option<u64> {
    if v == "None"@ {
        None
    } else {
        let inner = if has_prefix(v, "Some("@) && has_suffix(v.skip(5), ")"@) {
            v.subrange(5, v.len() - 1)
        } else {
            v
        };
        parse_u64_spec(inner)
    }
}

/// A `rate=` value such as `109.81MiB/s`: the number before an optional
/// `MiB/s` or `MB/s` unit, when it is a valid decimal literal.
pub open spec fn rate_text(v: Seq<char>) -> Option<Seq<char>> {
    let t = if has_suffix(v, "MiB/s"@) {
        v.subrange(0, v.len() - 5)
    } else if has_suffix(v, "MB/s"@) {
        v.subrange(0, v.len() - 4)
    } else {
        v
    };
    if decimal_literal_ok(t) {
        Some(t)
    } else {
        None
    }
}

/// Effect of one whitespace-separated token of a progress message on the
/// snapshot and on the "recognised" flag; `None` rejects the whole message.
///
/// In the v0.5.1 form (`progress 100.0% scanned=A/B hits=H files=F rate=R eta=E ...`)
/// only `scanned=` counts as recognised; in the legacy form
/// (`progress bytes_scanned=N total_bytes=N pct=P hits=N files=N rate_mib=R eta_secs=Some(N)`)
/// every known key does. Unknown keys and tokens without `=` are ignored.
pub open spec fn progress_step(p: ProgressView, saw: bool, tok: Seq<char>, v051: bool) -> Option<
    (ProgressView, bool),
> {
    if v051 && has_suffix(tok, "%"@) && !contains_char(tok.drop_last(), '=') {
        if decimal_literal_ok(tok.drop_last()) {
            Some((ProgressView { pct: Some(tok.drop_last()), ..p }, saw))
        } else {
            Some((p, saw))
        }
    } else {
        match after_char(tok, '=') {
            None => Some((p, saw)),
            Some(v) => {
                let k = before_char(tok, '=');
                if v051 {
                    if k == "scanned"@ {
                        match after_char(v, '/') {
                            None => None,
                            Some(b) => match (
                                parse_u64_spec(before_char(v, '/')),
                                parse_u64_spec(b),
                            ) {
                                (Some(x), Some(y)) => Some(
                                    (ProgressView { bytes_scanned: x, total_bytes: y, ..p }, true),
                                ),
                                _ => None,
                            },
                        }
                    } else if k == "hits"@ {
                        match parse_u64_spec(v) {
                            Some(x) => Some((ProgressView { hits: x, ..p }, saw)),
                            None => None,
                        }
                    } else if k == "files"@ {
                        match parse_u64_spec(v) {
                            Some(x) => Some((ProgressView { files: x, ..p }, saw)),
                            None => None,
                        }
                    } else if k == "rate"@ {
                        Some((ProgressView { rate_mib: rate_text(v), ..p }, saw))
                    } else if k == "eta"@ {
                        Some((ProgressView { eta_secs: eta_spec(v), ..p }, saw))
                    } else {
                        Some((p, saw))
                    }
                } else {
                    if k == "bytes_scanned"@ {
                        match parse_u64_spec(v) {
                            Some(x) => Some((ProgressView { bytes_scanned: x, ..p }, true)),
                            None => None,
                        }
                    } else if k == "total_bytes"@ {
                        match parse_u64_spec(v) {
                            Some(x) => Some((ProgressView { total_bytes: x, ..p }, true)),
                            None => None,
                        }
                    } else if k == "pct"@ {
                        if decimal_literal_ok(v) {
                            Some((ProgressView { pct: Some(v), ..p }, true))
                        } else {
                            None
                        }
                    } else if k == "hits"@ {
                        match parse_u64_spec(v) {
                            Some(x) => Some((ProgressView { hits: x, ..p }, true)),
                            None => None,
                        }
                    } else if k == "files"@ {
                        match parse_u64_spec(v) {
                            Some(x) => Some((ProgressView { files: x, ..p }, true)),
                            None => None,
                        }
                    } else if k == "rate_mib"@ {
                        if decimal_literal_ok(v) {
                            Some((ProgressView { rate_mib: Some(v), ..p }, true))
                        } else {
                            None
                        }
                    } else if k == "eta_secs"@ {
                        Some((ProgressView { eta_secs: legacy_eta(v), ..p }, true))
                    } else {
                        Some((p, saw))
                    }
                }
            },
        }
    }
}

pub open spec fn progress_fold(toks: Seq<Seq<char>>, v051: bool) -> Option<(ProgressView, bool)>
    decreases toks.len(),
{
    if toks.len() == 0 {
        Some((empty_progress(), false))
    } else {
        match progress_fold(toks.drop_last(), v051) {
            Some((p, saw)) => progress_step(p, saw, toks.last(), v051),
            None => None,
        }
    }
}

pub open spec fn is_v051_progress(toks: Seq<Seq<char>>) -> bool {
    exists|i: int| 0 <= i < toks.len() && has_prefix(#[trigger] toks[i], "scanned="@)
}

/// The snapshot a progress message describes, if it is one.
pub open spec fn progress_spec(message: Seq<char>) -> Option<ProgressView> {
    if !has_prefix(message, "progress "@) {
        None
    } else {
        let toks = ws_tokens(message.skip(9));
        match progress_fold(toks, is_v051_progress(toks)) {
            Some((p, true)) => Some(p),
            _ => None,
        }
    }
}

proof fn lemma_progress_fold_none_sticky(toks: Seq<Seq<char>>, v051: bool, i: int)
    requires
        0 <= i <= toks.len(),
        progress_fold(toks.take(i), v051) is None,
    ensures
        progress_fold(toks, v051) is None,
    decreases toks.len() - i,
{
    if i < toks.len() {
        assert(toks.take(i + 1).drop_last() =~= toks.take(i));
        lemma_progress_fold_none_sticky(toks, v051, i + 1);
    } else {
        assert(toks.take(i) =~= toks);
    }
}

fn rate_text_exec(v: &[char]) -> (r: Option<String>)
    ensures
        opt_view(r) == rate_text(v@),
{
    proof {
        reveal_strlit("MiB/s");
        reveal_strlit("MB/s");
    }
    let t: Vec<char> = if ends_with_str(v, "MiB/s") {
        copy_range(v, 0, v.len() - 5)
    } else if ends_with_str(v, "MB/s") {
        copy_range(v, 0, v.len() - 4)
    } else {
        let c = copy_range(v, 0, v.len());
        assert(c@ =~= v@);
        c
    };
    if decimal_literal_ok_exec(&t) {
        Some(string_of(&t))
    } else {
        None
    }
}

fn legacy_eta_exec(v: &[char]) -> (r: Option<u64>)
    ensures
        r == legacy_eta(v@),
{
    proof {
        reveal_strlit("Some(");
        reveal_strlit(")");
    }
    if eq_str(v, "None") {
        return None;
    }
    if starts_with_str(v, "Some(") {
        let rest = copy_range(v, 5, v.len());
        assert(rest@ =~= v@.skip(5));
        if ends_with_str(&rest, ")") {
            let inner = copy_range(v, 5, v.len() - 1);
            return parse_u64(&inner);
        }
    }
    parse_u64(v)
}

fn apply_progress_token(p: &mut ScanProgress, saw: &mut bool, tok: &[char], v051: bool) -> (ok:
    bool)
    ensures
        ok ==> progress_step(old(p)@, *old(saw), tok@, v051) == Some((final(p)@, *final(saw))),
        !ok ==> progress_step(old(p)@, *old(saw), tok@, v051) is None,
{
    proof {
        reveal_strlit("%");
    }
    let n = tok.len();
    if v051 && ends_with_str(tok, "%") && !has_char(&copy_range(tok, 0, n - 1), '=') {
        let num = copy_range(tok, 0, n - 1);
        assert(num@ =~= tok@.drop_last());
        if decimal_literal_ok_exec(&num) {
            p.pct = Some(string_of(&num));
        }
        return true;
    }
    let v = match after_char_exec_pub(tok, '=') {
        None => {
            return true;
        },
        Some(v) => v,
    };
    let k = before_char_exec_pub(tok, '=');
    if v051 {
        if eq_str(&k, "scanned") {
            match after_char_exec_pub(&v, '/') {
                None => false,
                Some(b) => {
                    let a = before_char_exec_pub(&v, '/');
                    match (parse_u64(&a), parse_u64(&b)) {
                        (Some(x), Some(y)) => {
                            p.bytes_scanned = x;
                            p.total_bytes = y;
                            *saw = true;
                            true
                        },
                        _ => false,
                    }
                },
            }
        } else if eq_str(&k, "hits") {
            match parse_u64(&v) {
                Some(x) => {
                    p.hits = x;
                    true
                },
                None => false,
            }
        } else if eq_str(&k, "files") {
            match parse_u64(&v) {
                Some(x) => {
                    p.files = x;
                    true
                },
                None => false,
            }
        } else if eq_str(&k, "rate") {
            p.rate_mib = rate_text_exec(&v);
            true
        } else if eq_str(&k, "eta") {
            let vs = string_of(&v);
            p.eta_secs = parse_eta(vs.as_str());
            true
        } else {
            true
        }
    } else {
        if eq_str(&k, "bytes_scanned") {
            match parse_u64(&v) {
                Some(x) => {
                    p.bytes_scanned = x;
                    *saw = true;
                    true
                },
                None => false,
            }
        } else if eq_str(&k, "total_bytes") {
            match parse_u64(&v) {
                Some(x) => {
                    p.total_bytes = x;
                    *saw = true;
                    true
                },
                None => false,
            }
        } else if eq_str(&k, "pct") {
            if decimal_literal_ok_exec(&v) {
                p.pct = Some(string_of(&v));
                *saw = true;
                true
            } else {
                false
            }
        } else if eq_str(&k, "hits") {
            match parse_u64(&v) {
                Some(x) => {
                    p.hits = x;
                    *saw = true;
                    true
                },
                None => false,
            }
        } else if eq_str(&k, "files") {
            match parse_u64(&v) {
                Some(x) => {
                    p.files = x;
                    *saw = true;
                    true
                },
                None => false,
            }
        } else if eq_str(&k, "rate_mib") {
            if decimal_literal_ok_exec(&v) {
                p.rate_mib = Some(string_of(&v));
                *saw = true;
                true
            } else {
                false
            }
        } else if eq_str(&k, "eta_secs") {
            p.eta_secs = legacy_eta_exec(&v);
            *saw = true;
            true
        } else {
            true
        }
    }
}

/// Parse a progress message string.
///
/// Supports both the SwiftBeaver v0.5.1 format and the older legacy form:
///
/// * v0.5.1: `progress 100.0% scanned=A/B hits=H files=F rate=R.RMiB/s eta=N/A errs=[...]`
/// * legacy: `progress bytes_scanned=N total_bytes=N pct=N.N hits=N files=N rate_mib=N.NN eta_secs=Some(N)`
///
/// The v0.5.1 form is recognised by a `scanned=` token.
pub fn parse_progress_message(message: &str) -> (r: Option<ScanProgress>)
    ensures
        match r {
            Some(p) => progress_spec(message@) == Some(p@),
            None => progress_spec(message@) is None,
        },
{
    let m = chars_of(message);
    proof {
        reveal_strlit("progress ");
    }
    if !starts_with_str(&m, "progress ") {
        return None;
    }
    let body = copy_range(&m, 9, m.len());
    assert(body@ =~= m@.skip(9));
    let toks = split_ws(&body);
    let mut v051 = false;
    let mut j: usize = 0;
    while j < toks.len()
        invariant
            j <= toks@.len(),
            views(toks@) == ws_tokens(body@),
            v051 == exists|i: int| 0 <= i < j && has_prefix(#[trigger] views(toks@)[i], "scanned="@),
        decreases toks@.len() - j,
    {
        if starts_with_str(&toks[j], "scanned=") {
            v051 = true;
        }
        assert(views(toks@)[j as int] == toks@[j as int]@);
        j = j + 1;
    }
    let ghost tv = views(toks@);
    assert(v051 == is_v051_progress(tv));
    let mut p = ScanProgress::empty();
    let mut saw = false;
    let mut i: usize = 0;
    assert(tv.take(0) =~= Seq::<Seq<char>>::empty());
    while i < toks.len()
        invariant
            i <= toks@.len(),
            tv == views(toks@),
            has_prefix(message@, "progress "@),
            tv == ws_tokens(message@.skip(9)),
            v051 == is_v051_progress(tv),
            progress_fold(tv.take(i as int), v051) == Some((p@, saw)),
        decreases toks@.len() - i,
    {
        assert(tv.take(i + 1).drop_last() =~= tv.take(i as int));
        assert(tv.take(i + 1).last() == toks@[i as int]@);
        if !apply_progress_token(&mut p, &mut saw, &toks[i], v051) {
            proof {
                lemma_progress_fold_none_sticky(tv, v051, i + 1);
            }
            return None;
        }
        i = i + 1;
    }
    assert(tv.take(toks@.len() as int) =~= tv);
    if saw {
        Some(p)
    } else {
        None
    }
}

// ---------------------------------------------------------------------------
// Starting messages
// ---------------------------------------------------------------------------

/// Run identity announced by SwiftBeaver's `starting` log message.
#[derive(Debug, Clone)]
pub struct StartInfo {
    pub run_id: String,
    pub output: String,
}

/// The value of the last token starting with `prefix`, without the prefix
/// (empty when there is none).
pub open spec fn last_value_with_prefix(toks: Seq<Seq<char>>, prefix: Seq<char>) -> Seq<char>
    decreases toks.len(),
{
    if toks.len() == 0 {
        Seq::empty()
    } else if has_prefix(toks.last(), prefix) {
        toks.last().skip(prefix.len() as int)
    } else {
        last_value_with_prefix(toks.drop_last(), prefix)
    }
}

/// `(run_id, output)` of a message `starting run_id=XXX input=YYY output=ZZZ ...`,
/// present when the output path is non-empty.
pub open spec fn starting_spec(message: Seq<char>) -> Option<(Seq<char>, Seq<char>)> {
    if !has_prefix(message, "starting "@) {
        None
    } else {
        let toks = ws_tokens(message.skip(9));
        let output = last_value_with_prefix(toks, "output="@);
        if output.len() > 0 {
            Some((last_value_with_prefix(toks, "run_id="@), output))
        } else {
            None
        }
    }
}

/// Parse a starting message to extract run_id and output path.
///
/// Format: `starting run_id=XXX input=YYY output=ZZZ workers=N chunk_size=N`
pub fn parse_starting_message(message: &str) -> (r: Option<StartInfo>)
    ensures
        match r {
            Some(info) => starting_spec(message@) == Some((info.run_id@, info.output@)),
            None => starting_spec(message@) is None,
        },
{
    let m = chars_of(message);
    proof {
        reveal_strlit("starting ");
        reveal_strlit("run_id=");
        reveal_strlit("output=");
    }
    if !starts_with_str(&m, "starting ") {
        return None;
    }
    let body = copy_range(&m, 9, m.len());
    assert(body@ =~= m@.skip(9));
    let toks = split_ws(&body);
    let ghost tv = views(toks@);
    let mut run_id: Vec<char> = Vec::new();
    let mut output: Vec<char> = Vec::new();
    let mut i: usize = 0;
    assert(tv.take(0) =~= Seq::<Seq<char>>::empty());
    while i < toks.len()
        invariant
            i <= toks@.len(),
            tv == views(toks@),
            "run_id="@.len() == 7,
            "output="@.len() == 7,
            "run_id="@[0] == 'r',
            "output="@[0] == 'o',
            run_id@ == last_value_with_prefix(tv.take(i as int), "run_id="@),
            output@ == last_value_with_prefix(tv.take(i as int), "output="@),
        decreases toks@.len() - i,
    {
        let t = &toks[i];
        assert(tv.take(i + 1).drop_last() =~= tv.take(i as int));
        assert(tv.take(i + 1).last() == t@);
        if starts_with_str(t, "run_id=") {
            run_id = copy_range(t, 7, t.len());
            proof {
                assert(run_id@ =~= t@.skip(7));
                assert(t@.subrange(0, 7)[0] == 'r');
                assert(!has_prefix(t@, "output="@));
            }
        } else if starts_with_str(t, "output=") {
            output = copy_range(t, 7, t.len());
            assert(output@ =~= t@.skip(7));
        }
        i = i + 1;
    }
    assert(tv.take(toks@.len() as int) =~= tv);
    if output.len() > 0 {
        Some(StartInfo { run_id: string_of(&run_id), output: string_of(&output) })
    } else {
        None
    }
}

// ---------------------------------------------------------------------------
// JSON log records
// ---------------------------------------------------------------------------

/// What a log line read as JSON holds: `None` when it is not JSON; otherwise
/// the strings at `/level`, `/fields/message` and `/message` (each `None`
/// when absent or not a string).
pub open spec fn log_json_of(line: Seq<char>) -> Option<(Option<Seq<char>>, Option<Seq<char>>, Option<Seq<char>>)> {
    if json_is_value_of(line) {
        Some(
            (
                json_text_at_of(line, "/level"@),
                json_text_at_of(line, "/fields/message"@),
                json_text_at_of(line, "/message"@),
            ),
        )
    } else {
        None
    }
}

/// Reads a log line as JSON and picks out the members the log format uses.
fn parse_log_json(line: &str) -> (r: Option<(Option<String>, Option<String>, Option<String>)>)
    ensures
        match r {
            Some((a, b, c)) => log_json_of(line@) == Some((opt_view(a), opt_view(b), opt_view(c))),
            None => log_json_of(line@) is None,
        },
{
    if !json_is_value(line) {
        return None;
    }
    Some((json_text_at(line, "/level"), json_text_at(line, "/fields/message"), json_text_at(line, "/message")))
}

/// What a structured log record carries.
#[derive(Debug, Clone)]
pub enum LogPayload {
    /// A progress report.
    Progress(ScanProgress),
    /// The run announcement.
    Starting(StartInfo),
    /// Any other record: its message.
    Message(String),
}

/// Mathematical model of a [`LogPayload`].
pub enum PayloadView {
    Progress(ProgressView),
    Starting(Seq<char>, Seq<char>),
    Message(Seq<char>),
}

impl View for LogPayload {
    type V = PayloadView;

    open spec fn view(&self) -> PayloadView {
        match self {
            LogPayload::Progress(p) => PayloadView::Progress(p@),
            LogPayload::Starting(info) => PayloadView::Starting(info.run_id@, info.output@),
            LogPayload::Message(m) => PayloadView::Message(m@),
        }
    }
}

/// The message of a record: `fields.message`, else the top-level `message`.
pub open spec fn record_message(nested: Option<Seq<char>>, top: Option<Seq<char>>) -> Option<Seq<char>> {
    match nested {
        Some(m) => Some(m),
        None => top,
    }
}

/// `(event type, payload)` of a JSON log line: present when the line is JSON
/// with a string `level` and a string message. Progress and starting
/// messages that parse give `progress` and `starting`; any other record gives
/// its level in lower case with its message.
pub open spec fn json_log_spec(line: Seq<char>) -> Option<(Seq<char>, PayloadView)> {
    match log_json_of(line) {
        None => None,
        Some((lv, nested, top)) => match lv {
            None => None,
            Some(level) => match record_message(nested, top) {
                None => None,
                Some(m) => if has_prefix(m, "progress "@) && progress_spec(m) is Some {
                    Some(("progress"@, PayloadView::Progress(progress_spec(m).unwrap())))
                } else if has_prefix(m, "starting "@) && starting_spec(m) is Some {
                    let (rid, out) = starting_spec(m).unwrap();
                    Some(("starting"@, PayloadView::Starting(rid, out)))
                } else {
                    Some((unicode_lowercase(level), PayloadView::Message(m)))
                },
            },
        },
    }
}

/// Parse a JSON log line from SwiftBeaver.
///
/// Returns `(event_type, payload)` where `event_type` is `progress`,
/// `starting`, or the record's level in lower case (`info`, `warn`, ...).
pub fn parse_json_log(line: &str) -> (r: Option<(String, LogPayload)>)
    ensures
        match r {
            Some((et, payload)) => json_log_spec(line@) == Some((et@, payload@)),
            None => json_log_spec(line@) is None,
        },
{
    let (lv, nested, top) = match parse_log_json(line) {
        Some(t) => t,
        None => return None,
    };
    let level = match lv {
        Some(l) => l,
        None => return None,
    };
    let message = match nested {
        Some(m) => m,
        None => match top {
            Some(m) => m,
            None => return None,
        },
    };
    let mc = chars_of(message.as_str());
    if starts_with_str(&mc, "progress ") {
        if let Some(p) = parse_progress_message(message.as_str()) {
            return Some((string_of_str("progress"), LogPayload::Progress(p)));
        }
    }
    if starts_with_str(&mc, "starting ") {
        if let Some(info) = parse_starting_message(message.as_str()) {
            return Some((string_of_str("starting"), LogPayload::Starting(info)));
        }
    }
    let et = lowercase(level.as_str());
    Some((et, LogPayload::Message(message)))
}

} // verus!
