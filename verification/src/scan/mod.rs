//! Discovery and compatibility checks for the `swiftbeaver` engine, plus the
//! scan state shared by the manager and the UI.

pub mod cli_laws;
pub mod manager;
pub mod progress;
pub mod session;

use vstd::prelude::*;

use crate::text::{
    append_str, ascii_lower_seq, chars_of, copy_range, dec, ends_with_str, has_prefix, has_suffix,
    lead_count, lemma_lead_count_is, parse_u32, parse_u32_spec, push_dec, split_ws, starts_with,
    string_of, string_of_str, string_views, to_ascii_lower, trim, trim_ws, views, ws_tokens,
};

verus! {

/// Minimum supported SwiftBeaver version for the schemas and flags Lodge exposes.
pub const MIN_SWIFTBEAVER_VERSION: (u32, u32, u32) = (0, 6, 7);

/// Scan state.
#[derive(Debug, Clone, Copy, PartialEq, Eq, Structural)]
pub enum ScanState {
    Idle,
    Running,
    Completed,
    Failed,
    Cancelled,
}

/// Log entry from swiftbeaver.
#[derive(Debug, Clone)]
pub struct LogEntry {
    pub timestamp: String,
    pub level: String,
    pub message: String,
}

/// Why a discovered swiftbeaver binary is not usable.
#[derive(Debug, PartialEq, Eq)]
pub enum CompatibilityIssue {
    /// `swiftbeaver --version` did not return parseable output.
    UnparseableVersion(String),
    /// Detected version is older than [`MIN_SWIFTBEAVER_VERSION`].
    UnsupportedVersion { detected: (u32, u32, u32), minimum: (u32, u32, u32) },
}

/// A discovered `swiftbeaver` CLI along with version metadata.
#[derive(Debug, Clone)]
pub struct DiscoveredBinary {
    pub path: String,
    /// Parsed semantic version (major, minor, patch), if `--version` succeeded
    /// and produced parseable output.
    pub version: Option<(u32, u32, u32)>,
    /// Raw `--version` output (trimmed), if available.
    pub version_string: Option<String>,
}

/// `a >= b` in the lexicographic order of version triples.
pub open spec fn version_at_least(a: (u32, u32, u32), b: (u32, u32, u32)) -> bool {
    a.0 > b.0 || (a.0 == b.0 && (a.1 > b.1 || (a.1 == b.1 && a.2 >= b.2)))
}

/// Compare a parsed version against [`MIN_SWIFTBEAVER_VERSION`].
pub fn meets_minimum_version(version: (u32, u32, u32)) -> (r: bool)
    ensures
        r == version_at_least(version, (0, 6, 7)),
{
    let (a, b, c) = version;
    a > 0 || (a == 0 && (b > 6 || (b == 6 && c >= 7)))
}

/// The `Debug` rendering of a string (quoted and escaped), as `format!("{:?}", s)` gives it.
pub uninterp spec fn debug_quoted(s: Seq<char>) -> Seq<char>;

/// `format!("{:?}", s)`: the contract names the result `debug_quoted(s@)`; the
/// escaping rules of `str::escape_debug` are not spelled out.
#[verifier::external_body]
fn debug_string(s: &str) -> (r: String)
    ensures
        r@ == debug_quoted(s@),
{
    format!("{:?}", s)
}

pub open spec fn unparseable_message(raw: Seq<char>) -> Seq<char> {
    "Could not parse swiftbeaver --version output ("@ + debug_quoted(raw)
        + "). Requires v0.6.7+."@
}

pub open spec fn unsupported_message(v: (u32, u32, u32)) -> Seq<char> {
    "swiftbeaver "@ + dec(v.0 as nat) + "."@ + dec(v.1 as nat) + "."@ + dec(v.2 as nat)
        + " is older than the minimum supported version v0.6.7. Please upgrade SwiftBeaver."@
}

impl Clone for CompatibilityIssue {
    fn clone(&self) -> (r: Self)
        ensures
            r == *self,
    {
        match self {
            CompatibilityIssue::UnparseableVersion(raw) => CompatibilityIssue::UnparseableVersion(
                raw.clone(),
            ),
            CompatibilityIssue::UnsupportedVersion { detected, minimum } => {
                CompatibilityIssue::UnsupportedVersion { detected: *detected, minimum: *minimum }
            },
        }
    }
}

impl CompatibilityIssue {
    pub open spec fn message_spec(&self) -> Seq<char> {
        match self {
            CompatibilityIssue::UnparseableVersion(raw) => unparseable_message(raw@),
            CompatibilityIssue::UnsupportedVersion { detected, .. } => unsupported_message(
                *detected,
            ),
        }
    }

    /// Render an actionable message suitable for the UI or log output.
    pub fn user_message(&self) -> (r: String)
        ensures
            r@ == self.message_spec(),
    {
        let mut out: Vec<char> = Vec::new();
        match self {
            CompatibilityIssue::UnparseableVersion(raw) => {
                append_str(&mut out, "Could not parse swiftbeaver --version output (");
                let q = debug_string(raw.as_str());
                append_str(&mut out, q.as_str());
                append_str(&mut out, "). Requires v0.6.7+.");
            },
            CompatibilityIssue::UnsupportedVersion { detected, .. } => {
                let (a, b, c) = *detected;
                append_str(&mut out, "swiftbeaver ");
                push_dec(&mut out, a as u64);
                append_str(&mut out, ".");
                push_dec(&mut out, b as u64);
                append_str(&mut out, ".");
                push_dec(&mut out, c as u64);
                append_str(
                    &mut out,
                    " is older than the minimum supported version v0.6.7. Please upgrade SwiftBeaver.",
                );
            },
        }
        string_of(&out)
    }
}

impl DiscoveredBinary {
    /// Returns `Ok(())` when the discovered binary meets the minimum version,
    /// or a [`CompatibilityIssue`] describing why it does not.
    pub fn check_compatibility(&self) -> (r: Result<(), CompatibilityIssue>)
        ensures
            match self.version {
                Some(v) => if version_at_least(v, (0, 6, 7)) {
                    r is Ok
                } else {
                    r == Err::<(), CompatibilityIssue>(
                        CompatibilityIssue::UnsupportedVersion { detected: v, minimum: (0, 6, 7) },
                    )
                },
                None => r matches Err(CompatibilityIssue::UnparseableVersion(raw)) && raw@ == (
                match self.version_string {
                    Some(s) => s@,
                    None => Seq::<char>::empty(),
                }),
            },
    {
        match self.version {
            Some(v) => {
                if meets_minimum_version(v) {
                    Ok(())
                } else {
                    Err(CompatibilityIssue::UnsupportedVersion { detected: v, minimum: (0, 6, 7) })
                }
            },
            None => {
                let raw = match &self.version_string {
                    Some(s) => s.clone(),
                    None => String::new(),
                };
                Err(CompatibilityIssue::UnparseableVersion(raw))
            },
        }
    }
}

// ---------------------------------------------------------------------------
// Version string parsing
// ---------------------------------------------------------------------------

pub open spec fn not_char_pred(c: char) -> spec_fn(char) -> bool {
    |x: char| x != c
}

pub open spec fn not_sign_pred() -> spec_fn(char) -> bool {
    |x: char| x != '-' && x != '+'
}

/// The part of `s` before the first `c` (all of `s` when there is none).
pub open spec fn before_char(s: Seq<char>, c: char) -> Seq<char> {
    s.take(lead_count(s, not_char_pred(c)) as int)
}

/// The part of `s` after the first `c`, if `s` contains `c`.
pub open spec fn after_char(s: Seq<char>, c: char) -> Option<Seq<char>> {
    let k = lead_count(s, not_char_pred(c));
    if k < s.len() {
        Some(s.skip(k + 1 as int))
    } else {
        None
    }
}

pub open spec fn strip_prefix_or_self(s: Seq<char>, p: Seq<char>) -> Seq<char> {
    if has_prefix(s, p) {
        s.skip(p.len() as int)
    } else {
        s
    }
}

pub open spec fn first_token(s: Seq<char>) -> Seq<char> {
    let t = ws_tokens(s);
    if t.len() > 0 {
        t[0]
    } else {
        Seq::empty()
    }
}

/// The numeric core of a `--version` output: after trimming, an optional
/// `swiftbeaver` word, the first whitespace-separated token, an optional `v`,
/// and the part before any `-`/`+` pre-release or build suffix.
pub open spec fn version_core(s: Seq<char>) -> Seq<char> {
    let trimmed = trim(s);
    let rest = trim(strip_prefix_or_self(trimmed, "swiftbeaver"@));
    let token = strip_prefix_or_self(first_token(rest), seq!['v']);
    token.take(lead_count(token, not_sign_pred()) as int)
}

/// `major.minor[.patch[.anything]]` with each used component a `u32`; a missing
/// patch counts as 0.
pub open spec fn parse_version_core(core: Seq<char>) -> Option<(u32, u32, u32)> {
    let major = parse_u32_spec(before_char(core, '.'));
    match after_char(core, '.') {
        None => None,
        Some(r1) => {
            let minor = parse_u32_spec(before_char(r1, '.'));
            let patch_text = match after_char(r1, '.') {
                Some(r2) => before_char(r2, '.'),
                None => seq!['0'],
            };
            let patch = parse_u32_spec(patch_text);
            match (major, minor, patch) {
                (Some(a), Some(b), Some(c)) => Some((a, b, c)),
                _ => None,
            }
        },
    }
}

pub open spec fn parse_version_spec(s: Seq<char>) -> Option<(u32, u32, u32)> {
    parse_version_core(version_core(s))
}

/// Number of leading characters different from `c`.
pub fn lead_not_char(s: &[char], c: char) -> (k: usize)
    ensures
        k == lead_count(s@, not_char_pred(c)),
        k <= s@.len(),
{
    let mut k: usize = 0;
    while k < s.len() && s[k] != c
        invariant
            k <= s@.len(),
            forall|j: int| 0 <= j < k ==> s@[j] != c,
        decreases s@.len() - k,
    {
        k = k + 1;
    }
    proof {
        assert forall|j: int| 0 <= j < k implies #[trigger] not_char_pred(c)(s@[j]) by {}
        lemma_lead_count_is(s@, not_char_pred(c), k as int);
    }
    k
}

pub fn before_char_exec_pub(s: &[char], c: char) -> (r: Vec<char>)
    ensures
        r@ == before_char(s@, c),
{
    before_char_exec(s, c)
}

fn before_char_exec(s: &[char], c: char) -> (r: Vec<char>)
    ensures
        r@ == before_char(s@, c),
{
    let k = lead_not_char(s, c);
    assert(s@.take(k as int) =~= s@.subrange(0, k as int));
    copy_range(s, 0, k)
}

pub fn after_char_exec_pub(s: &[char], c: char) -> (r: Option<Vec<char>>)
    ensures
        match r {
            Some(v) => after_char(s@, c) == Some(v@),
            None => after_char(s@, c) is None,
        },
{
    after_char_exec(s, c)
}

fn after_char_exec(s: &[char], c: char) -> (r: Option<Vec<char>>)
    ensures
        match r {
            Some(v) => after_char(s@, c) == Some(v@),
            None => after_char(s@, c) is None,
        },
{
    let k = lead_not_char(s, c);
    if k < s.len() {
        let v = copy_range(s, k + 1, s.len());
        assert(v@ =~= s@.skip(k + 1));
        Some(v)
    } else {
        None
    }
}

fn strip_prefix_or_self_exec(s: &[char], p: &str) -> (r: Vec<char>)
    ensures
        r@ == strip_prefix_or_self(s@, p@),
{
    let pv = chars_of(p);
    if starts_with(s, &pv) {
        let v = copy_range(s, pv.len(), s.len());
        assert(v@ =~= s@.skip(p@.len() as int));
        v
    } else {
        copy_range(s, 0, s.len())
    }
}

// ---------------------------------------------------------------------------
// Reading back a rendered version
// ---------------------------------------------------------------------------

/// `major.minor.patch`, or `major.minor` without a patch, in decimal.
pub open spec fn version_text(a: u32, b: u32, c: u32, with_patch: bool) -> Seq<char> {
    if with_patch {
        dec(a as nat) + "."@ + dec(b as nat) + "."@ + dec(c as nat)
    } else {
        dec(a as nat) + "."@ + dec(b as nat)
    }
}

/// A `--version` output: an optional `swiftbeaver ` word, an optional `v`,
/// the version, and a suffix.
pub open spec fn version_output_text(word: bool, v: bool, version: Seq<char>, suffix: Seq<char>) -> Seq<char> {
    (if word {
        "swiftbeaver "@
    } else {
        Seq::<char>::empty()
    }) + (if v {
        seq!['v']
    } else {
        Seq::<char>::empty()
    }) + version + suffix
}

proof fn lemma_parse_dec(n: u32)
    ensures
        parse_u32_spec(dec(n as nat)) == Some(n),
{
    crate::text::lemma_dec_digits(n as nat);
    assert(crate::text::is_digit(dec(n as nat)[0]));
}

proof fn lemma_digits_split(x: Seq<char>, rest: Seq<char>)
    requires
        crate::text::all_digits(x),
    ensures
        before_char(x + "."@ + rest, '.') == x,
        after_char(x + "."@ + rest, '.') == Some(rest),
{
    reveal_strlit(".");
    let s = x + "."@ + rest;
    assert forall|j: int| 0 <= j < x.len() implies #[trigger] not_char_pred('.')(s[j]) by {
        assert(s[j] == x[j]);
        assert(crate::text::is_digit(x[j]));
    }
    assert(s[x.len() as int] == '.');
    lemma_lead_count_is(s, not_char_pred('.'), x.len() as int);
    assert(s.take(x.len() as int) =~= x);
    assert(s.skip(x.len() + 1 as int) =~= rest);
}

proof fn lemma_digits_whole(x: Seq<char>)
    requires
        crate::text::all_digits(x),
    ensures
        before_char(x, '.') == x,
        after_char(x, '.') is None,
{
    assert forall|j: int| 0 <= j < x.len() implies #[trigger] not_char_pred('.')(x[j]) by {
        assert(crate::text::is_digit(x[j]));
    }
    lemma_lead_count_is(x, not_char_pred('.'), x.len() as int);
    assert(x.take(x.len() as int) =~= x);
}

proof fn lemma_version_core_parses(a: u32, b: u32, c: u32, with_patch: bool)
    ensures
        parse_version_core(version_text(a, b, c, with_patch)) == Some(
            (a, b, if with_patch { c } else { 0 }),
        ),
{
    crate::text::lemma_dec_digits(a as nat);
    crate::text::lemma_dec_digits(b as nat);
    crate::text::lemma_dec_digits(c as nat);
    lemma_parse_dec(a);
    lemma_parse_dec(b);
    lemma_parse_dec(c);
    let da = dec(a as nat);
    let db = dec(b as nat);
    let dc = dec(c as nat);
    if with_patch {
        let r1 = db + "."@ + dc;
        assert(version_text(a, b, c, true) =~= da + "."@ + r1);
        lemma_digits_split(da, r1);
        lemma_digits_split(db, dc);
        lemma_digits_whole(dc);
    } else {
        lemma_digits_split(da, db);
        lemma_digits_whole(db);
        assert(crate::text::digits_val(seq!['0']) == 0) by {
            let z = seq!['0'];
            assert(z.drop_last() =~= Seq::<char>::empty());
            assert(crate::text::digits_val(Seq::<char>::empty()) == 0);
            assert(crate::text::digit_value(z.last()) == 0);
        }
        assert(crate::text::all_digits(seq!['0']));
    }
}

/// Digits and dots, starting and ending with a digit.
pub open spec fn dotted_digits(x: Seq<char>) -> bool {
    &&& x.len() > 0
    &&& crate::text::is_digit(x[0])
    &&& crate::text::is_digit(x.last())
    &&& forall|j: int| 0 <= j < x.len() ==> crate::text::is_digit(#[trigger] x[j]) || x[j] == '.'
}

proof fn lemma_version_text_dotted(a: u32, b: u32, c: u32, with_patch: bool)
    ensures
        dotted_digits(version_text(a, b, c, with_patch)),
{
    reveal_strlit(".");
    crate::text::lemma_dec_digits(a as nat);
    crate::text::lemma_dec_digits(b as nat);
    crate::text::lemma_dec_digits(c as nat);
    let da = dec(a as nat);
    let db = dec(b as nat);
    let dc = dec(c as nat);
    let p = da + "."@ + db;
    assert forall|j: int| 0 <= j < p.len() implies crate::text::is_digit(#[trigger] p[j]) || p[j] == '.' by {
        if j < da.len() {
            assert(p[j] == da[j]);
        } else if j > da.len() {
            assert(p[j] == db[j - da.len() - 1]);
        }
    }
    assert(p[0] == da[0]);
    assert(p.last() == db.last());
    if with_patch {
        let q = p + "."@ + dc;
        assert forall|j: int| 0 <= j < q.len() implies crate::text::is_digit(#[trigger] q[j]) || q[j] == '.' by {
            if j < p.len() {
                assert(q[j] == p[j]);
            } else if j > p.len() {
                assert(q[j] == dc[j - p.len() - 1]);
            }
        }
        assert(q[0] == p[0]);
        assert(q.last() == dc.last());
    }
}

/// Without whitespace at either end, trimming changes nothing.
proof fn lemma_trim_unpadded(u: Seq<char>)
    requires
        u.len() > 0,
        !crate::text::is_ws(u[0]),
        !crate::text::is_ws(u.last()),
    ensures
        trim(u) == u,
{
    lemma_lead_count_is(u, crate::text::ws_pred(), 0);
    assert(u.skip(0) =~= u);
    crate::text::lemma_trail_count_is(u, crate::text::ws_pred(), 0);
    assert(u.take(u.len() as int) =~= u);
}

/// Trimming a text that starts with a non-blank keeps everything up to its
/// last non-blank character, so at least up to any non-blank `u[i]`.
proof fn lemma_trim_keeps(u: Seq<char>, i: int)
    requires
        0 <= i < u.len(),
        !crate::text::is_ws(u[0]),
        !crate::text::is_ws(u[i]),
    ensures
        exists|e: int| i < e <= u.len() && trim(u) == u.take(e) && !crate::text::is_ws(#[trigger] u[e - 1]),
{
    lemma_lead_count_is(u, crate::text::ws_pred(), 0);
    assert(u.skip(0) =~= u);
    crate::text::lemma_trail_count_bounds(u, crate::text::ws_pred());
    let tc = crate::text::trail_count(u, crate::text::ws_pred());
    let e = u.len() - tc;
    if i >= e {
        assert(crate::text::ws_pred()(u[i]));
    }
    assert(!crate::text::is_ws(u[e - 1]));
    assert(trim(u) == u.take(e));
}

/// No whitespace in `x`.
pub open spec fn unblank(x: Seq<char>) -> bool {
    forall|j: int| 0 <= j < x.len() ==> !crate::text::is_ws(#[trigger] x[j])
}

/// Trimming, dropping the `swiftbeaver` word and trimming again leave the
/// token and a prefix of the suffix that still starts as it does.
#[verifier::spinoff_prover]
proof fn lemma_outer_trim(word: bool, head: Seq<char>, suffix: Seq<char>) -> (suf1: Seq<char>)
    requires
        head.len() > 0,
        unblank(head),
        head[0] != 's',
        suffix.len() > 0 ==> !crate::text::is_ws(suffix[0]),
    ensures
        trim(
            strip_prefix_or_self(
                trim((if word { "swiftbeaver "@ } else { Seq::<char>::empty() }) + head + suffix),
                "swiftbeaver"@,
            ),
        ) == head + suf1,
        suf1 == suffix.take(suf1.len() as int),
        suf1.len() <= suffix.len(),
        suffix.len() > 0 ==> suf1.len() > 0,
{
    reveal_strlit("swiftbeaver ");
    reveal_strlit("swiftbeaver");
    let wp = if word {
        "swiftbeaver "@
    } else {
        Seq::<char>::empty()
    };
    let s = wp + head + suffix;
    let n0: int = (wp.len() + head.len()) as int;
    let i: int = if suffix.len() > 0 {
        n0
    } else {
        n0 - 1
    };
    assert(s[0] == (if word { 's' } else { head[0] }));
    if suffix.len() > 0 {
        assert(s[i] == suffix[0]);
    } else {
        assert(s[i] == head[head.len() - 1]);
    }
    lemma_trim_keeps(s, i);
    let e = choose|e: int| i < e <= s.len() && trim(s) == s.take(e) && !crate::text::is_ws(#[trigger] s[e - 1]);
    let suf1 = suffix.take(e - n0);
    let t1 = head + suf1;
    assert(s.take(e) =~= wp + t1);
    assert(t1[0] == head[0]);
    assert(t1[t1.len() - 1] == s[e - 1]);
    if word {
        let s1 = s.take(e);
        assert(s1.subrange(0, 11) =~= "swiftbeaver"@);
        let after = s1.skip(11);
        assert(after =~= seq![' '] + t1);
        lemma_lead_count_is(after, crate::text::ws_pred(), 1);
        assert(after.skip(1) =~= t1);
        crate::text::lemma_trail_count_is(t1, crate::text::ws_pred(), 0);
        assert(t1.take(t1.len() as int) =~= t1);
    } else {
        assert(s.take(e) =~= t1);
        if has_prefix(t1, "swiftbeaver"@) {
            assert(t1.subrange(0, 11)[0] == t1[0]);
        }
        lemma_trim_unpadded(t1);
    }
    suf1
}

/// The first token of the token and a suffix that starts with a non-blank:
/// the token and a prefix of the suffix that still starts as it does.
proof fn lemma_leading_token(head: Seq<char>, suf1: Seq<char>) -> (suf2: Seq<char>)
    requires
        head.len() > 0,
        unblank(head),
        suf1.len() > 0 ==> !crate::text::is_ws(suf1[0]),
    ensures
        first_token(head + suf1) == head + suf2,
        suf2 == suf1.take(suf2.len() as int),
        suf2.len() <= suf1.len(),
        suf1.len() > 0 ==> suf2.len() > 0,
{
    let t1 = head + suf1;
    assert(t1[0] == head[0]);
    crate::text::lemma_lead_count_bounds(t1, crate::text::non_ws_pred());
    let k = lead_count(t1, crate::text::non_ws_pred());
    if k < head.len() {
        assert(t1[k as int] == head[k as int]);
    }
    if suf1.len() > 0 && k == head.len() {
        assert(t1[k as int] == suf1[0]);
    }
    assert(first_token(t1) == t1.take(k as int));
    let suf2 = suf1.take(k - head.len());
    assert(t1.take(k as int) =~= head + suf2);
    suf2
}

/// The numeric core of an output in the shape `version_output_text` gives
/// is the version itself.
proof fn lemma_version_core_of_output(word: bool, v: bool, version: Seq<char>, suffix: Seq<char>)
    requires
        dotted_digits(version),
        suffix.len() == 0 || suffix[0] == '-' || suffix[0] == '+',
    ensures
        version_core(version_output_text(word, v, version, suffix)) == version,
{
    let vp = if v {
        seq!['v']
    } else {
        Seq::<char>::empty()
    };
    let wp = if word {
        "swiftbeaver "@
    } else {
        Seq::<char>::empty()
    };
    let head = vp + version;
    assert(version_output_text(word, v, version, suffix) =~= wp + head + suffix);
    assert forall|j: int| 0 <= j < head.len() implies !crate::text::is_ws(#[trigger] head[j]) by {
        if j >= vp.len() {
            assert(head[j] == version[j - vp.len()]);
        }
    }
    assert(head[0] == (if v { 'v' } else { version[0] }));
    let suf1 = lemma_outer_trim(word, head, suffix);
    if suf1.len() > 0 {
        assert(suf1[0] == suffix[0]);
    }
    let suf2 = lemma_leading_token(head, suf1);
    let w = version + suf2;
    assert(head + suf2 =~= vp + w);
    if v {
        assert((vp + w).subrange(0, 1) =~= seq!['v']);
        assert((vp + w).skip(1) =~= w);
    } else {
        assert(vp + w =~= w);
        if has_prefix(w, seq!['v']) {
            assert(w.subrange(0, 1)[0] == w[0]);
            assert(w[0] == version[0]);
        }
    }
    assert forall|j: int| 0 <= j < version.len() implies #[trigger] not_sign_pred()(w[j]) by {
        assert(w[j] == version[j]);
    }
    if suf2.len() > 0 {
        assert(suf2[0] == suf1[0]);
        assert(w[version.len() as int] == suf2[0]);
    }
    lemma_lead_count_is(w, not_sign_pred(), version.len() as int);
    assert(w.take(version.len() as int) =~= version);
}

/// Parsing reads back the version an output names: `major.minor.patch`, or
/// `major.minor` with patch 0, after an optional `swiftbeaver ` word and an
/// optional `v`, and before any `-` pre-release or `+` build suffix (or none).
pub proof fn lemma_version_round_trip(
    a: u32,
    b: u32,
    c: u32,
    with_patch: bool,
    word: bool,
    v: bool,
    suffix: Seq<char>,
)
    requires
        suffix.len() == 0 || suffix[0] == '-' || suffix[0] == '+',
    ensures
        parse_version_spec(version_output_text(word, v, version_text(a, b, c, with_patch), suffix))
            == Some((a, b, if with_patch { c } else { 0 })),
{
    lemma_version_text_dotted(a, b, c, with_patch);
    lemma_version_core_of_output(word, v, version_text(a, b, c, with_patch), suffix);
    lemma_version_core_parses(a, b, c, with_patch);
}

/// Parse `swiftbeaver 0.5.1`, `swiftbeaver v0.5.1`, or just `0.5.1[-suffix]`
/// into a `(major, minor, patch)` tuple.
pub fn parse_swiftbeaver_version(s: &str) -> (r: Option<(u32, u32, u32)>)
    ensures
        r == parse_version_spec(s@),
{
    let sv = chars_of(s);
    let trimmed = trim_ws(&sv);
    let stripped = strip_prefix_or_self_exec(&trimmed, "swiftbeaver");
    let rest = trim_ws(&stripped);
    let tokens = split_ws(&rest);
    let token: Vec<char> = if tokens.len() > 0 {
        assert(tokens@[0]@ == views(tokens@)[0]);
        copy_range(&tokens[0], 0, tokens[0].len())
    } else {
        Vec::new()
    };
    assert(token@ =~= first_token(rest@));
    let vtoken = if token.len() > 0 && token[0] == 'v' {
        let v = copy_range(&token, 1, token.len());
        proof {
            reveal_strlit("v");
        }
        assert(token@.subrange(0, 1) =~= seq!['v']);
        assert(has_prefix(token@, seq!['v']));
        assert(v@ =~= strip_prefix_or_self(token@, seq!['v']));
        v
    } else {
        assert(!has_prefix(token@, seq!['v']));
        assert(token@ =~= strip_prefix_or_self(token@, seq!['v']));
        copy_range(&token, 0, token.len())
    };
    let mut k: usize = 0;
    while k < vtoken.len() && vtoken[k] != '-' && vtoken[k] != '+'
        invariant
            k <= vtoken@.len(),
            forall|j: int| 0 <= j < k ==> vtoken@[j] != '-' && vtoken@[j] != '+',
        decreases vtoken@.len() - k,
    {
        k = k + 1;
    }
    proof {
        assert forall|j: int| 0 <= j < k implies #[trigger] not_sign_pred()(vtoken@[j]) by {}
        lemma_lead_count_is(vtoken@, not_sign_pred(), k as int);
    }
    let core = copy_range(&vtoken, 0, k);
    assert(core@ =~= version_core(s@));
    let major = parse_u32(&before_char_exec(&core, '.'));
    match after_char_exec(&core, '.') {
        None => None,
        Some(r1) => {
            let minor = parse_u32(&before_char_exec(&r1, '.'));
            let patch_text: Vec<char> = match after_char_exec(&r1, '.') {
                Some(r2) => before_char_exec(&r2, '.'),
                None => {
                    let mut z: Vec<char> = Vec::new();
                    z.push('0');
                    assert(z@ =~= seq!['0']);
                    z
                },
            };
            let patch = parse_u32(&patch_text);
            match (major, minor, patch) {
                (Some(a), Some(b), Some(c)) => Some((a, b, c)),
                _ => None,
            }
        },
    }
}

// ---------------------------------------------------------------------------
// Locating the binary
// ---------------------------------------------------------------------------

/// Candidate file names for `name`: on Windows `<name>.exe` first, then `name`,
/// unless the name already ends in `.exe` (ignoring ASCII case).
pub open spec fn name_candidates(name: Seq<char>, windows: bool) -> Seq<Seq<char>> {
    if windows && !has_suffix(ascii_lower_seq(name), ".exe"@) {
        seq![name + ".exe"@, name]
    } else {
        seq![name]
    }
}

/// Return candidate file names for a logical executable name on a platform.
pub fn binary_name_candidates(name: &str, windows: bool) -> (r: Vec<String>)
    ensures
        string_views(r@) == name_candidates(name@, windows),
{
    let nv = chars_of(name);
    let lower = to_ascii_lower(&nv);
    let mut r: Vec<String> = Vec::new();
    if windows && !ends_with_str(&lower, ".exe") {
        let mut with_exe = copy_range(&nv, 0, nv.len());
        assert(with_exe@ =~= name@);
        append_str(&mut with_exe, ".exe");
        let a = string_of(&with_exe);
        let b = string_of_str(name);
        r.push(a);
        r.push(b);
        assert(r@ == seq![a, b]);
        assert(string_views(r@) =~= seq![name@ + ".exe"@, name@]);
    } else {
        let a = string_of_str(name);
        r.push(a);
        assert(r@ == seq![a]);
        assert(string_views(r@) =~= seq![name@]);
    }
    r
}

/// `Path::join` of a relative, non-empty component onto `dir` with `/` separators.
pub open spec fn join_path(dir: Seq<char>, name: Seq<char>) -> Seq<char> {
    if dir.len() == 0 {
        name
    } else if dir.last() == '/' {
        dir + name
    } else {
        dir + seq!['/'] + name
    }
}

pub fn join_path_exec(dir: &str, name: &str) -> (r: String)
    ensures
        r@ == join_path(dir@, name@),
{
    let mut out = chars_of(dir);
    let n = out.len();
    if n > 0 && out[n - 1] != '/' {
        out.push('/');
    }
    append_str(&mut out, name);
    string_of(&out)
}

/// Whether a file system entry exists at `path` (`Path::exists`). The answer
/// depends on the disk at the time of the call, so nothing is promised of it.
#[verifier::external_body]
pub(crate) fn path_exists(path: &str) -> (r: bool) {
    std::path::Path::new(path).exists()
}

/// Searches `PATH` for an executable named `name` (`which::which`). The result
/// depends on the environment and the disk; nothing is promised of it.
#[verifier::external_body]
fn which_binary(name: &str) -> (r: Option<String>) {
    which::which(name).ok().map(|p| p.to_string_lossy().into_owned())
}

/// The candidate paths of a search: for each directory in order, `<dir>/<name>`
/// for each candidate name in order.
pub open spec fn dir_candidates(dirs: Seq<Seq<char>>, names: Seq<Seq<char>>) -> Seq<Seq<char>>
    decreases dirs.len(),
{
    if dirs.len() == 0 {
        seq![]
    } else {
        dir_candidates(dirs.drop_last(), names) + names.map_values(|n: Seq<char>| join_path(dirs.last(), n))
    }
}

/// The first candidate whose probe answered that it exists.
pub open spec fn first_present_spec(cands: Seq<Seq<char>>, present: Seq<bool>) -> Option<Seq<char>>
    decreases cands.len(),
{
    if cands.len() == 0 || present.len() == 0 {
        None
    } else if present[0] {
        Some(cands[0])
    } else {
        first_present_spec(cands.drop_first(), present.drop_first())
    }
}

pub open spec fn opt_text(o: Option<String>) -> Option<Seq<char>> {
    match o {
        Some(s) => Some(s@),
        None => None,
    }
}

/// The candidate paths of a search, in order (see [`dir_candidates`]).
pub fn dir_candidate_paths(dirs: &Vec<String>, names: &Vec<String>) -> (r: Vec<String>)
    ensures
        string_views(r@) == dir_candidates(string_views(dirs@), string_views(names@)),
{
    let ghost dv = string_views(dirs@);
    let ghost nv = string_views(names@);
    let mut r: Vec<String> = Vec::new();
    let mut i: usize = 0;
    assert(dv.take(0) =~= Seq::<Seq<char>>::empty());
    while i < dirs.len()
        invariant
            i <= dirs@.len(),
            dv == string_views(dirs@),
            nv == string_views(names@),
            string_views(r@) == dir_candidates(dv.take(i as int), nv),
        decreases dirs@.len() - i,
    {
        let ghost before = string_views(r@);
        let ghost d = dv[i as int];
        let mut j: usize = 0;
        while j < names.len()
            invariant
                i < dirs@.len(),
                j <= names@.len(),
                dv == string_views(dirs@),
                nv == string_views(names@),
                d == dv[i as int],
                string_views(r@) == before + nv.take(j as int).map_values(|n: Seq<char>| join_path(d, n)),
            decreases names@.len() - j,
        {
            let c = join_path_exec(dirs[i].as_str(), names[j].as_str());
            let ghost prev = string_views(r@);
            r.push(c);
            proof {
                assert(dirs@[i as int]@ == d);
                assert(names@[j as int]@ == nv[j as int]);
                assert(string_views(r@) =~= prev.push(c@));
                assert(nv.take(j + 1).map_values(|n: Seq<char>| join_path(d, n)) =~= nv.take(j as int).map_values(
                    |n: Seq<char>| join_path(d, n),
                ).push(join_path(d, nv[j as int])));
            }
            j = j + 1;
        }
        proof {
            let t = dv.take(i + 1);
            assert(t.drop_last() =~= dv.take(i as int));
            assert(t.last() == d);
            assert(nv.take(names@.len() as int) =~= nv);
        }
        i = i + 1;
    }
    assert(dv.take(dirs@.len() as int) =~= dv);
    r
}

/// The first candidate whose probe answered that it exists.
pub fn first_present(cands: &Vec<String>, present: &Vec<bool>) -> (r: Option<String>)
    requires
        cands@.len() == present@.len(),
    ensures
        opt_text(r) == first_present_spec(string_views(cands@), present@),
{
    let ghost cv = string_views(cands@);
    let mut i: usize = 0;
    assert(cv.skip(0) =~= cv);
    assert(present@.skip(0) =~= present@);
    while i < cands.len()
        invariant
            i <= cands@.len(),
            cands@.len() == present@.len(),
            cv == string_views(cands@),
            first_present_spec(cv, present@) == first_present_spec(cv.skip(i as int), present@.skip(i as int)),
        decreases cands@.len() - i,
    {
        proof {
            assert(cv.skip(i as int)[0] == cv[i as int]);
            assert(present@.skip(i as int)[0] == present@[i as int]);
            assert(cv.skip(i as int).drop_first() =~= cv.skip(i + 1));
            assert(present@.skip(i as int).drop_first() =~= present@.skip(i + 1));
        }
        if present[i] {
            let c = cands[i].clone();
            assert(c@ == cv[i as int]);
            return Some(c);
        }
        i = i + 1;
    }
    assert(cv.skip(i as int).len() == 0);
    None
}

/// Return the first platform-specific `<dir>/<name>` that exists on disk.
///
/// Directories are searched in order, and within a directory the candidate
/// names in the order of [`binary_name_candidates`]. Each candidate is probed
/// on disk and the answer is [`first_present`]'s for the probes.
pub fn find_in_dirs_for_platform(name: &str, dirs: &Vec<String>, windows: bool) -> (r: Option<
    String,
>)
    ensures
        exists|present: Seq<bool>|
            #![trigger first_present_spec(dir_candidates(string_views(dirs@), name_candidates(name@, windows)), present)]
            present.len() == dir_candidates(string_views(dirs@), name_candidates(name@, windows)).len()
                && opt_text(r) == first_present_spec(
                dir_candidates(string_views(dirs@), name_candidates(name@, windows)),
                present,
            ),
{
    let names = binary_name_candidates(name, windows);
    let cands = dir_candidate_paths(dirs, &names);
    let mut present: Vec<bool> = Vec::new();
    let mut k: usize = 0;
    while k < cands.len()
        invariant
            k <= cands@.len(),
            present@.len() == k,
        decreases cands@.len() - k,
    {
        present.push(path_exists(cands[k].as_str()));
        k = k + 1;
    }
    first_present(&cands, &present)
}

/// The directories searched for the engine, in order: `<exe_dir>/bin` when
/// the executable's directory is known, then `bin` under the working
/// directory.
pub open spec fn search_dirs(exe_dir: Option<String>) -> Seq<Seq<char>> {
    match exe_dir {
        Some(d) => seq![join_path(d@, "bin"@), "bin"@],
        None => seq!["bin"@],
    }
}

/// The directories searched before `PATH` (see [`search_dirs`]).
pub fn binary_search_dirs(exe_dir: Option<String>) -> (r: Vec<String>)
    ensures
        string_views(r@) == search_dirs(exe_dir),
{
    let mut dirs: Vec<String> = Vec::new();
    let ghost e = exe_dir;
    match exe_dir {
        Some(d) => {
            dirs.push(join_path_exec(d.as_str(), "bin"));
        },
        None => {},
    }
    dirs.push(string_of_str("bin"));
    assert(string_views(dirs@) =~= search_dirs(e));
    dirs
}

/// The engine found in the search directories, else the one found on `PATH`.
pub fn pick_binary(in_dirs: Option<String>, on_path: Option<String>) -> (r: Option<String>)
    ensures
        r == (if in_dirs is Some {
            in_dirs
        } else {
            on_path
        }),
{
    match in_dirs {
        Some(p) => Some(p),
        None => on_path,
    }
}

/// The candidate paths searched for `name` before `PATH`.
pub open spec fn search_candidates(name: Seq<char>, exe_dir: Option<String>, windows: bool) -> Seq<Seq<char>> {
    dir_candidates(search_dirs(exe_dir), name_candidates(name, windows))
}

/// Search the standard locations for a binary with the given name: first
/// `<exe_dir>/bin`, then `./bin`, then `PATH`.
///
/// `exe_dir` is the directory of the running executable, when known. The disk
/// answers which candidates exist and the environment what `PATH` gives; the
/// answer is the first existing candidate, else what `PATH` gave (of which
/// nothing is promised).
pub fn find_named_binary(name: &str, exe_dir: Option<String>, windows: bool) -> (r: Option<String>)
    ensures
        exists|present: Seq<bool>|
            #![trigger first_present_spec(search_candidates(name@, exe_dir, windows), present)]
            present.len() == search_candidates(name@, exe_dir, windows).len() && (match first_present_spec(
                search_candidates(name@, exe_dir, windows),
                present,
            ) {
                Some(p) => opt_text(r) == Some(p),
                None => true,
            }),
{
    let ghost e = exe_dir;
    let dirs = binary_search_dirs(exe_dir);
    let in_dirs = find_in_dirs_for_platform(name, &dirs, windows);
    let on_path = if in_dirs.is_none() {
        which_binary(name)
    } else {
        None
    };
    let r = pick_binary(in_dirs, on_path);
    proof {
        let cands = dir_candidates(string_views(dirs@), name_candidates(name@, windows));
        assert(cands == search_candidates(name@, e, windows));
        let present = choose|present: Seq<bool>|
            present.len() == cands.len() && opt_text(in_dirs) == #[trigger] first_present_spec(cands, present);
        assert(present.len() == search_candidates(name@, e, windows).len());
        assert(first_present_spec(search_candidates(name@, e, windows), present) == opt_text(in_dirs));
    }
    r
}

/// Find the unified `swiftbeaver` CLI (see [`find_named_binary`]).
pub fn find_swiftbeaver_binary(exe_dir: Option<String>, windows: bool) -> (r: Option<String>)
    ensures
        exists|present: Seq<bool>|
            #![trigger first_present_spec(search_candidates("swiftbeaver"@, exe_dir, windows), present)]
            present.len() == search_candidates("swiftbeaver"@, exe_dir, windows).len() && (
            match first_present_spec(search_candidates("swiftbeaver"@, exe_dir, windows), present) {
                Some(p) => opt_text(r) == Some(p),
                None => true,
            }),
{
    find_named_binary("swiftbeaver", exe_dir, windows)
}

/// The probe output as recorded: trimmed of surrounding whitespace.
pub open spec fn probe_text(output: Option<String>) -> Option<Seq<char>> {
    match output {
        Some(v) => Some(crate::text::trim(v@)),
        None => None,
    }
}

/// Builds the discovery record of a located binary from the standard output
/// of its `--version` probe (`None` when the probe failed or timed out); the
/// output is kept trimmed.
///
/// Returns `None` only when no binary was found.
pub fn discover_swiftbeaver(found: Option<String>, version_output: Option<String>) -> (r: Option<
    DiscoveredBinary,
>)
    ensures
        found is None ==> r is None,
        found matches Some(p) ==> r matches Some(b) && b.path == p && match b.version_string {
            Some(v) => probe_text(version_output) == Some(v@),
            None => version_output is None,
        } && b.version == (match probe_text(version_output) {
            Some(v) => parse_version_spec(v),
            None => None,
        }),
{
    match found {
        None => None,
        Some(path) => {
            let version_string = match &version_output {
                Some(v) => {
                    let c = crate::text::chars_of(v.as_str());
                    let t = crate::text::trim_ws(&c);
                    Some(crate::text::string_of(&t))
                },
                None => None,
            };
            let version = match &version_string {
                Some(v) => parse_swiftbeaver_version(v.as_str()),
                None => None,
            };
            Some(DiscoveredBinary { path, version, version_string })
        },
    }
}

pub open spec fn version_display(b: Option<DiscoveredBinary>) -> Seq<char> {
    match b {
        None => "not installed"@,
        Some(b) => {
            let s = match b.version_string {
                Some(s) => s@,
                None => match b.version {
                    Some(v) => dec(v.0 as nat) + "."@ + dec(v.1 as nat) + "."@ + dec(v.2 as nat),
                    None => "not installed"@,
                },
            };
            if b.version_string is None && b.version is None {
                "not installed"@
            } else {
                strip_prefix_or_self(s, "swiftbeaver "@)
            }
        },
    }
}

/// Human-readable swiftbeaver version string for status displays, or
/// `"not installed"` when no binary (or no version) is known.
pub fn get_swiftbeaver_version(discovered: Option<DiscoveredBinary>) -> (r: String)
    ensures
        r@ == version_display(discovered),
{
    match discovered {
        None => string_of_str("not installed"),
        Some(b) => {
            let s: Vec<char> = match &b.version_string {
                Some(s) => chars_of(s.as_str()),
                None => match b.version {
                    Some((x, y, z)) => {
                        let mut out: Vec<char> = Vec::new();
                        push_dec(&mut out, x as u64);
                        append_str(&mut out, ".");
                        push_dec(&mut out, y as u64);
                        append_str(&mut out, ".");
                        push_dec(&mut out, z as u64);
                        out
                    },
                    None => {
                        return string_of_str("not installed");
                    },
                },
            };
            let stripped = strip_prefix_or_self_exec(&s, "swiftbeaver ");
            string_of(&stripped)
        },
    }
}

} // verus!
