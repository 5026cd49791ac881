//! Results browser: what is loaded of a run, how it is filtered, and how
//! error texts are made safe to show.

use vstd::prelude::*;

use crate::metadata::reader::MetadataReader;
use crate::metadata::types::{total_size, CarvedFile, MetadataSummary, StringArtefact};
use crate::text::{
    append_chars, chars_of, contains_char, contains_seq, has_char, join, lead_count, lemma_lead_count_bounds,
    lemma_trail_count_bounds, lowercase, split_ws, string_of, string_of_str, trail_count,
    unicode_lowercase, views, ws_tokens, seq_less, str_less, string_views,
};

verus! {

// ---------------------------------------------------------------------------
// Text shown for errors and values
// ---------------------------------------------------------------------------

/// `value` cut to its first `max_chars` characters, with `...` when cut.
pub open spec fn truncated_text(value: Seq<char>, max_chars: nat) -> Seq<char> {
    if value.len() <= max_chars {
        value
    } else {
        value.take(max_chars as int) + "..."@
    }
}

/// Cut a string to at most `max_chars` characters, appending `...` when
/// characters were dropped.
pub fn truncate_chars(value: &str, max_chars: usize) -> (r: String)
    ensures
        r@ == truncated_text(value@, max_chars as nat),
{
    let c = chars_of(value);
    if c.len() <= max_chars {
        return string_of(&c);
    }
    let mut out = crate::text::copy_range(&c, 0, max_chars);
    crate::text::append_str(&mut out, "...");
    string_of(&out)
}

/// The label of a validation result.
pub open spec fn validation_text(validated: Option<bool>) -> Seq<char> {
    match validated {
        Some(true) => "Passed"@,
        Some(false) => "Failed"@,
        None => "Not run"@,
    }
}

pub fn validation_status_label(validated: Option<bool>) -> (r: &'static str)
    ensures
        r@ == validation_text(validated),
{
    match validated {
        Some(true) => "Passed",
        Some(false) => "Failed",
        None => "Not run",
    }
}

/// The text shown for a failed load step: the step, and where details are.
pub open spec fn load_error_text(context: Seq<char>) -> Seq<char> {
    context + ". See application logs for details."@
}

pub fn format_load_error(context: &str) -> (r: String)
    ensures
        r@ == load_error_text(context@),
{
    let mut out = chars_of(context);
    crate::text::append_str(&mut out, ". See application logs for details.");
    string_of(&out)
}

/// Characters trimmed from both ends of a token before judging it.
pub open spec fn punct_pred() -> spec_fn(char) -> bool {
    |c: char| c == ',' || c == ';' || c == ')' || c == '('
}

/// A token that names a path: it holds a `/` or a `\` (drive forms such as
/// `C:\` and `x:/`, and absolute paths on every platform, all do).
pub open spec fn path_like(t: Seq<char>) -> bool {
    contains_char(t, '/') || contains_char(t, '\\')
}

/// `Path::is_absolute`: which paths are absolute depends on the platform; on
/// every platform an absolute path starts at a root, written `/` or `\`, so
/// an absolute path holds one of them. That is all the contract says.
#[verifier::external_body]
fn path_is_absolute(s: &str) -> (r: bool)
    ensures
        r ==> path_like(s@),
{
    std::path::Path::new(s).is_absolute()
}

/// Whether a token looks like a file system path.
pub fn is_path_like_token(token: &str) -> (r: bool)
    ensures
        r == path_like(token@),
{
    let t = chars_of(token);
    let colon_back = crate::text::contains_str(&t, ":\\");
    let colon_slash = crate::text::contains_str(&t, ":/");
    proof {
        reveal_strlit(":\\");
        reveal_strlit(":/");
        if colon_back {
            let i = choose|i: int| crate::text::occurs_at(t@, ":\\"@, i);
            assert(t@[i + 1] == ":\\"@[1]);
        }
        if colon_slash {
            let i = choose|i: int| crate::text::occurs_at(t@, ":/"@, i);
            assert(t@[i + 1] == ":/"@[1]);
        }
    }
    (t.len() > 0 && t[0] == '/') || (t.len() > 0 && t[0] == '\\') || colon_back || colon_slash
        || has_char(&t, '\\') || has_char(&t, '/') || path_is_absolute(token)
}

/// A token with its core (the token less leading and trailing `,;()`)
/// replaced by `[path]` when the core looks like a path. The core starts and
/// ends with other characters, so it occurs in the token once.
pub open spec fn redact_token(tok: Seq<char>) -> Seq<char> {
    let a = lead_count(tok, punct_pred());
    let rest = tok.skip(a as int);
    let b = trail_count(rest, punct_pred());
    let core = rest.take(rest.len() - b);
    if path_like(core) {
        tok.take(a as int) + "[path]"@ + rest.skip(rest.len() - b)
    } else {
        tok
    }
}

/// The text with path-like tokens redacted, tokens rejoined by single spaces.
pub open spec fn redacted(value: Seq<char>) -> Seq<char> {
    join(ws_tokens(value).map_values(|t: Seq<char>| redact_token(t)), " "@)
}

fn redact_token_exec(tok: &Vec<char>) -> (r: Vec<char>)
    ensures
        r@ == redact_token(tok@),
{
    let n = tok.len();
    let mut a: usize = 0;
    while a < n && (tok[a] == ',' || tok[a] == ';' || tok[a] == ')' || tok[a] == '(')
        invariant
            n == tok@.len(),
            a <= n,
            forall|j: int| 0 <= j < a ==> #[trigger] punct_pred()(tok@[j]),
        decreases n - a,
    {
        a = a + 1;
    }
    proof {
        crate::text::lemma_lead_count_is(tok@, punct_pred(), a as int);
    }
    let ghost rest = tok@.skip(a as int);
    let mut e: usize = n;
    while e > a && (tok[e - 1] == ',' || tok[e - 1] == ';' || tok[e - 1] == ')' || tok[e - 1] == '(')
        invariant
            n == tok@.len(),
            a <= e <= n,
            rest == tok@.skip(a as int),
            forall|j: int| e <= j < n ==> #[trigger] punct_pred()(tok@[j]),
        decreases e,
    {
        e = e - 1;
    }
    proof {
        assert forall|j: int| rest.len() - (n - e) <= j < rest.len() implies #[trigger] punct_pred()(rest[j]) by {
            assert(rest[j] == tok@[a + j]);
        }
        if e > a {
            assert(rest[rest.len() - 1 - (n - e)] == tok@[e - 1]);
        }
        crate::text::lemma_trail_count_is(rest, punct_pred(), (n - e) as int);
    }
    let core = crate::text::copy_range(tok, a, e);
    assert(core@ =~= rest.take(rest.len() - (n - e)));
    let core_str = string_of(&core);
    if is_path_like_token(core_str.as_str()) {
        let mut out = crate::text::copy_range(tok, 0, a);
        crate::text::append_str(&mut out, "[path]");
        let tail = crate::text::copy_range(tok, e, n);
        append_chars(&mut out, &tail);
        proof {
            assert(tail@ =~= rest.skip(rest.len() - (n - e)));
            assert(tok@.take(a as int) =~= tok@.subrange(0, a as int));
        }
        out
    } else {
        crate::text::copy_range(tok, 0, n)
    }
}

/// Replace path-like tokens in a text by `[path]` (tokens are split on
/// whitespace and rejoined with single spaces).
pub fn redact_path_like_values(value: &str) -> (r: String)
    ensures
        r@ == redacted(value@),
{
    let c = chars_of(value);
    let toks = split_ws(&c);
    let mut red: Vec<Vec<char>> = Vec::new();
    let n = toks.len();
    for i in 0..n
        invariant
            n == toks@.len(),
            red@.len() == i,
            forall|j: int| 0 <= j < i ==> (#[trigger] red@[j])@ == redact_token(toks@[j]@),
    {
        let t = redact_token_exec(&toks[i]);
        red.push(t);
    }
    let joined = crate::text::join_chars(&red, " ");
    proof {
        assert(views(red@) =~= ws_tokens(value@).map_values(|t: Seq<char>| redact_token(t)));
    }
    string_of(&joined)
}

proof fn lemma_concat_without(a: Seq<char>, b: Seq<char>, c: char)
    requires
        !contains_char(a, c),
        !contains_char(b, c),
    ensures
        !contains_char(a + b, c),
{
    assert forall|i: int| 0 <= i < (a + b).len() implies (a + b)[i] != c by {
        if i < a.len() {
            assert((a + b)[i] == a[i]);
        } else {
            assert((a + b)[i] == b[i - a.len()]);
        }
    }
}

proof fn lemma_join_without(items: Seq<Seq<char>>, sep: Seq<char>, c: char)
    requires
        forall|i: int| 0 <= i < items.len() ==> !contains_char(#[trigger] items[i], c),
        !contains_char(sep, c),
    ensures
        !contains_char(join(items, sep), c),
    decreases items.len(),
{
    if items.len() == 1 {
        assert(!contains_char(items[0], c));
    } else if items.len() > 1 {
        let init = items.drop_last();
        assert forall|i: int| 0 <= i < init.len() implies !contains_char(#[trigger] init[i], c) by {
            assert(init[i] == items[i]);
        }
        lemma_join_without(init, sep, c);
        assert(!contains_char(items.last(), c));
        lemma_concat_without(join(init, sep), sep, c);
        lemma_concat_without(join(init, sep) + sep, items.last(), c);
    }
}

proof fn lemma_redact_token_without(t: Seq<char>, c: char)
    requires
        c == '/' || c == '\\',
    ensures
        !contains_char(redact_token(t), c),
{
    let p = punct_pred();
    let a = lead_count(t, p);
    lemma_lead_count_bounds(t, p);
    let rest = t.skip(a as int);
    let b = trail_count(rest, p);
    lemma_trail_count_bounds(rest, p);
    let prefix = t.take(a as int);
    let core = rest.take(rest.len() - b);
    let suffix = rest.skip(rest.len() - b);
    assert forall|i: int| 0 <= i < prefix.len() implies prefix[i] != c by {
        assert(p(t[i]));
    }
    assert forall|i: int| 0 <= i < suffix.len() implies suffix[i] != c by {
        assert(suffix[i] == rest[rest.len() - b + i]);
        assert(p(rest[rest.len() - b + i]));
    }
    if path_like(core) {
        reveal_strlit("[path]");
        assert forall|i: int| 0 <= i < "[path]"@.len() implies "[path]"@[i] != c by {}
        lemma_concat_without(prefix, "[path]"@, c);
        lemma_concat_without(prefix + "[path]"@, suffix, c);
    } else {
        assert(t =~= prefix + core + suffix);
        lemma_concat_without(prefix, core, c);
        lemma_concat_without(prefix + core, suffix, c);
    }
}

/// Redacted text holds no `/` and no `\`: whatever looked like a path has
/// been replaced, and the rest of the text had none.
pub proof fn lemma_redacted_has_no_path_separators(v: Seq<char>)
    ensures
        !contains_char(redacted(v), '/'),
        !contains_char(redacted(v), '\\'),
{
    let toks = ws_tokens(v).map_values(|t: Seq<char>| redact_token(t));
    reveal_strlit(" ");
    assert forall|i: int| 0 <= i < toks.len() implies !contains_char(#[trigger] toks[i], '/') by {
        lemma_redact_token_without(ws_tokens(v)[i], '/');
    }
    assert forall|i: int| 0 <= i < toks.len() implies !contains_char(#[trigger] toks[i], '\\') by {
        lemma_redact_token_without(ws_tokens(v)[i], '\\');
    }
    assert forall|i: int| 0 <= i < " "@.len() implies " "@[i] != '/' && " "@[i] != '\\' by {}
    lemma_join_without(toks, " "@, '/');
    lemma_join_without(toks, " "@, '\\');
}

/// The error line of a carved file never shows a path separator.
pub proof fn lemma_error_list_has_no_path_separators(errors: Seq<Seq<char>>)
    ensures
        !contains_char(error_list_text(errors), '/'),
        !contains_char(error_list_text(errors), '\\'),
{
    let r = redacted(join(errors, "; "@));
    lemma_redacted_has_no_path_separators(join(errors, "; "@));
    reveal_strlit("...");
    if r.len() > 240 {
        let head = r.take(240);
        assert forall|i: int| 0 <= i < head.len() implies head[i] != '/' && head[i] != '\\' by {
            assert(head[i] == r[i]);
        }
        assert forall|i: int| 0 <= i < "..."@.len() implies "..."@[i] != '/' && "..."@[i] != '\\' by {}
        lemma_concat_without(head, "..."@, '/');
        lemma_concat_without(head, "..."@, '\\');
    }
}

/// The errors of a carved file as one line: joined with `; `, path-like
/// values redacted, cut to 240 characters.
pub open spec fn error_list_text(errors: Seq<Seq<char>>) -> Seq<char> {
    truncated_text(redacted(join(errors, "; "@)), 240)
}

pub fn format_error_list(errors: &Vec<String>) -> (r: String)
    ensures
        r@ == error_list_text(crate::text::string_views(errors@)),
{
    let joined = crate::text::join_strings(errors, "; ");
    let js = string_of(&joined);
    let red = redact_path_like_values(js.as_str());
    truncate_chars(red.as_str(), 240)
}

// ---------------------------------------------------------------------------
// Filtering
// ---------------------------------------------------------------------------

/// A file shown under the type filter and the search query (matched in its
/// path, both lower-cased).
pub open spec fn file_shown(f: CarvedFile, type_filter: Option<Seq<char>>, query: Seq<char>) -> bool {
    &&& match type_filter {
        Some(t) => f.file_type@ == t,
        None => true,
    }
    &&& (query.len() == 0 || contains_seq(unicode_lowercase(f.path@), unicode_lowercase(query)))
}

/// An artefact shown under the search query (matched in its content).
pub open spec fn artefact_shown(a: StringArtefact, query: Seq<char>) -> bool {
    query.len() == 0 || contains_seq(unicode_lowercase(a.content@), unicode_lowercase(query))
}

/// Strictly increasing texts.
pub open spec fn strictly_sorted(s: Seq<Seq<char>>) -> bool {
    forall|i: int, j: int| 0 <= i < j < s.len() ==> seq_less(#[trigger] s[i], #[trigger] s[j])
}

/// `r` lists each file type of `files` once, in increasing order.
pub open spec fn type_choices(r: Seq<Seq<char>>, files: Seq<CarvedFile>) -> bool {
    &&& strictly_sorted(r)
    &&& forall|t: Seq<char>|
        r.contains(t) <==> exists|i: int| 0 <= i < files.len() && (#[trigger] files[i]).file_type@ == t
}

fn insert_unique_sorted(v: &mut Vec<String>, x: String)
    requires
        strictly_sorted(string_views(old(v)@)),
    ensures
        strictly_sorted(string_views(final(v)@)),
        forall|t: Seq<char>|
            string_views(final(v)@).contains(t) <==> (string_views(old(v)@).contains(t) || t == x@),
{
    let xc = chars_of(x.as_str());
    let ghost ov = string_views(v@);
    let mut p: usize = 0;
    let mut stop = false;
    while !stop && p < v.len()
        invariant
            p <= v@.len(),
            v@ == old(v)@,
            ov == string_views(v@),
            xc@ == x@,
            forall|k: int| 0 <= k < p ==> seq_less(#[trigger] ov[k], x@),
            stop ==> p < v@.len() && !seq_less(ov[p as int], x@),
        decreases v@.len() - p, if stop { 0int } else { 1int },
    {
        let yc = chars_of(v[p].as_str());
        assert(ov[p as int] == v@[p as int]@);
        if str_less(&yc, &xc) {
            p = p + 1;
        } else {
            stop = true;
        }
    }
    if p < v.len() {
        let yc = chars_of(v[p].as_str());
        assert(ov[p as int] == v@[p as int]@);
        if crate::text::seq_eq(&yc, &xc) {
            assert(ov.contains(x@));
            return;
        }
        proof {
            crate::text::lemma_seq_less_total(ov[p as int], x@);
        }
    }
    let ghost old_v = v@;
    v.insert(p, x);
    proof {
        let nv = string_views(v@);
        assert(nv =~= ov.insert(p as int, x@));
        assert forall|i: int, j: int| 0 <= i < j < nv.len() implies seq_less(#[trigger] nv[i], #[trigger] nv[j]) by {
            if j < p {
                assert(nv[i] == ov[i] && nv[j] == ov[j]);
            } else if j == p {
                assert(nv[i] == ov[i]);
            } else if i < p {
                assert(nv[i] == ov[i] && nv[j] == ov[j - 1]);
                if j - 1 > p {
                    crate::text::lemma_seq_less_transitive(x@, ov[p as int], ov[j - 1]);
                }
                assert(seq_less(x@, ov[j - 1]));
                crate::text::lemma_seq_less_transitive(ov[i], x@, ov[j - 1]);
            } else if i == p {
                assert(nv[j] == ov[j - 1]);
                if j - 1 > p {
                    crate::text::lemma_seq_less_transitive(x@, ov[p as int], ov[j - 1]);
                }
            } else {
                assert(nv[i] == ov[i - 1] && nv[j] == ov[j - 1]);
            }
        }
        assert forall|t: Seq<char>| nv.contains(t) <==> (ov.contains(t) || t == x@) by {
            if nv.contains(t) {
                let k = choose|k: int| 0 <= k < nv.len() && nv[k] == t;
                if k < p {
                    assert(ov[k] == t);
                } else if k > p {
                    assert(ov[k - 1] == t);
                }
            }
            if ov.contains(t) {
                let k = choose|k: int| 0 <= k < ov.len() && ov[k] == t;
                if k < p {
                    assert(nv[k] == t);
                } else {
                    assert(nv[k + 1] == t);
                }
            }
            if t == x@ {
                assert(nv[p as int] == t);
            }
        }
    }
}

/// Which tab of the results browser is open.
#[derive(Debug, Clone, Copy, PartialEq, Eq, Structural)]
pub enum ResultsTab {
    Overview,
    Files,
    Strings,
}

/// How loading a run went, step by step: opening its metadata, reading the
/// carved files, reading the string artefacts.
#[derive(Debug)]
pub enum LoadOutcome {
    OpenFailed,
    Opened {
        reader: MetadataReader,
        files: Result<Vec<CarvedFile>, String>,
        strings: Result<Vec<StringArtefact>, String>,
    },
}

/// Results browser panel.
#[derive(Debug)]
pub struct ResultsPanel {
    /// Current run path.
    pub run_path: Option<String>,
    /// Loaded metadata reader.
    pub reader: Option<MetadataReader>,
    /// Cached summary.
    pub summary: Option<MetadataSummary>,
    /// Cached files.
    pub files: Vec<CarvedFile>,
    /// Cached string artefacts.
    pub strings: Vec<StringArtefact>,
    /// Current tab.
    pub current_tab: ResultsTab,
    /// File type filter.
    pub type_filter: Option<String>,
    /// Search query.
    pub search_query: String,
    /// Selected file index.
    pub selected_file: Option<usize>,
    /// Error message.
    pub error: Option<String>,
}

impl ResultsPanel {
    /// Nothing loaded, nothing selected or filtered.
    pub open spec fn is_cleared(&self) -> bool {
        &&& self.reader is None
        &&& self.summary is None
        &&& self.files@.len() == 0
        &&& self.strings@.len() == 0
        &&& self.type_filter is None
        &&& self.search_query@.len() == 0
        &&& self.selected_file is None
        &&& self.error is None
    }

    pub fn new() -> (r: Self)
        ensures
            r.is_cleared(),
            r.run_path is None,
            r.current_tab == ResultsTab::Overview,
    {
        ResultsPanel {
            run_path: None,
            reader: None,
            summary: None,
            files: Vec::new(),
            strings: Vec::new(),
            current_tab: ResultsTab::Overview,
            type_filter: None,
            search_query: String::new(),
            selected_file: None,
            error: None,
        }
    }

    /// Forget what was loaded, keeping the run path and tab.
    pub fn clear_loaded_state(&mut self)
        ensures
            final(self).is_cleared(),
            final(self).run_path == old(self).run_path,
            final(self).current_tab == old(self).current_tab,
    {
        self.reader = None;
        self.summary = None;
        self.files = Vec::new();
        self.strings = Vec::new();
        self.type_filter = None;
        self.search_query = String::new();
        self.selected_file = None;
        self.error = None;
    }

    /// Clear loaded results.
    pub fn clear(&mut self)
        ensures
            final(self).is_cleared(),
            final(self).run_path is None,
            final(self).current_tab == old(self).current_tab,
    {
        self.run_path = None;
        self.clear_loaded_state();
    }

    /// Take in the outcome of loading the run at `run_path`. A failure to
    /// open it, to read its files or to summarise them leaves nothing loaded
    /// and an error; a failure to read its string artefacts is reported but
    /// the files are still shown.
    pub fn load(&mut self, run_path: &str, outcome: LoadOutcome)
        ensures
            final(self).run_path is Some && final(self).run_path.unwrap()@ == run_path@,
            final(self).current_tab == old(self).current_tab,
            final(self).type_filter is None && final(self).selected_file is None
                && final(self).search_query@.len() == 0,
            match outcome {
                LoadOutcome::OpenFailed => final(self).is_cleared_but_error(
                    load_error_text("Failed to open results"@),
                ),
                LoadOutcome::Opened { reader, files, strings } => match files {
                    Err(_) => final(self).is_cleared_but_error(load_error_text("Failed to load files"@)),
                    Ok(fs) => if total_size(fs@) > u64::MAX {
                        final(self).is_cleared_but_error(load_error_text("Failed to summarize results"@))
                    } else {
                        &&& final(self).reader == Some(reader)
                        &&& final(self).files@ == fs@
                        &&& final(self).summary is Some
                        &&& final(self).summary.unwrap().total_files == fs@.len()
                        &&& final(self).summary.unwrap().total_bytes == total_size(fs@)
                        &&& crate::metadata::types::counts_by_type(final(self).summary.unwrap().by_type@, fs@)
                        &&& match strings {
                            Ok(ss) => final(self).strings@ == ss@ && final(self).error is None
                                && final(self).summary.unwrap().string_artefacts == ss@.len(),
                            Err(_) => final(self).strings@.len() == 0 && final(self).error is Some
                                && final(self).error.unwrap()@ == load_error_text("Failed to load string artefacts"@)
                                && final(self).summary.unwrap().string_artefacts == 0,
                        }
                    },
                },
            },
    {
        self.clear_loaded_state();
        self.run_path = Some(string_of_str(run_path));
        match outcome {
            LoadOutcome::OpenFailed => {
                self.error = Some(format_load_error("Failed to open results"));
            },
            LoadOutcome::Opened { reader, files, strings } => {
                let files = match files {
                    Ok(f) => f,
                    Err(_) => {
                        self.error = Some(format_load_error("Failed to load files"));
                        return;
                    },
                };
                let strings = match strings {
                    Ok(s) => s,
                    Err(_) => {
                        self.error = Some(format_load_error("Failed to load string artefacts"));
                        Vec::new()
                    },
                };
                match MetadataSummary::from_results(&files, &strings) {
                    Ok(summary) => {
                        self.summary = Some(summary);
                        self.files = files;
                        self.strings = strings;
                        self.reader = Some(reader);
                    },
                    Err(_) => {
                        self.error = Some(format_load_error("Failed to summarize results"));
                    },
                }
            },
        }
    }

    /// Nothing loaded and `e` as the error.
    pub open spec fn is_cleared_but_error(&self, e: Seq<char>) -> bool {
        &&& self.reader is None
        &&& self.summary is None
        &&& self.files@.len() == 0
        &&& self.strings@.len() == 0
        &&& self.error is Some && self.error.unwrap()@ == e
    }

    /// The file types of the loaded files, each once, in increasing order:
    /// the choices of the type filter.
    pub fn file_type_choices(&self) -> (r: Vec<String>)
        ensures
            type_choices(string_views(r@), self.files@),
    {
        let mut r: Vec<String> = Vec::new();
        let n = self.files.len();
        let mut k: usize = 0;
        while k < n
            invariant
                n == self.files@.len(),
                k <= n,
                strictly_sorted(string_views(r@)),
                forall|t: Seq<char>|
                    string_views(r@).contains(t) <==> exists|i: int|
                        0 <= i < k && (#[trigger] self.files@[i]).file_type@ == t,
            decreases n - k,
        {
            let t = self.files[k].file_type.clone();
            let ghost before = string_views(r@);
            insert_unique_sorted(&mut r, t);
            proof {
                assert forall|u: Seq<char>|
                    string_views(r@).contains(u) <==> exists|i: int|
                        0 <= i < k + 1 && (#[trigger] self.files@[i]).file_type@ == u by {
                    if u == self.files@[k as int].file_type@ {
                        assert(0 <= k < k + 1);
                    }
                    if exists|i: int| 0 <= i < k + 1 && (#[trigger] self.files@[i]).file_type@ == u {
                        let i = choose|i: int| 0 <= i < k + 1 && (#[trigger] self.files@[i]).file_type@ == u;
                        if i < k {
                            assert(before.contains(u));
                        }
                    }
                }
            }
            k = k + 1;
        }
        r
    }

    /// Indices of the files shown under the type filter and search query.
    pub fn filtered_files(&self) -> (r: Vec<usize>)
        ensures
            forall|k: int| 0 <= k < r@.len() ==> (#[trigger] r@[k]) < self.files@.len(),
            forall|k: int, m: int| 0 <= k < m < r@.len() ==> r@[k] < r@[m],
            forall|i: int|
                0 <= i < self.files@.len() ==> (file_shown(
                    #[trigger] self.files@[i],
                    crate::scan::progress::opt_view(self.type_filter),
                    self.search_query@,
                ) <==> exists|k: int| 0 <= k < r@.len() && r@[k] == i),
    {
        let q = lowercase(self.search_query.as_str());
        let qc = chars_of(q.as_str());
        let empty_query = self.search_query.as_str().is_empty();
        let mut out: Vec<usize> = Vec::new();
        let n = self.files.len();
        for i in 0..n
            invariant
                n == self.files@.len(),
                qc@ == unicode_lowercase(self.search_query@),
                empty_query == (self.search_query@.len() == 0),
                forall|k: int| 0 <= k < out@.len() ==> (#[trigger] out@[k]) < i,
                forall|k: int, m: int| 0 <= k < m < out@.len() ==> out@[k] < out@[m],
                forall|j: int|
                    0 <= j < i ==> (file_shown(
                        #[trigger] self.files@[j],
                        crate::scan::progress::opt_view(self.type_filter),
                        self.search_query@,
                    ) <==> exists|k: int| 0 <= k < out@.len() && out@[k] == j),
        {
            let f = &self.files[i];
            let type_ok = match &self.type_filter {
                Some(t) => f.file_type == *t,
                None => true,
            };
            let query_ok = if empty_query {
                true
            } else {
                let p = lowercase(f.path.as_str());
                let pc = chars_of(p.as_str());
                crate::text::contains(&pc, &qc)
            };
            let ghost before = out@;
            if type_ok && query_ok {
                out.push(i);
                proof {
                    assert(out@[before.len() as int] == i);
                }
            }
            proof {
                assert forall|j: int| 0 <= j < i + 1 implies (file_shown(
                    #[trigger] self.files@[j],
                    crate::scan::progress::opt_view(self.type_filter),
                    self.search_query@,
                ) <==> exists|k: int| 0 <= k < out@.len() && out@[k] == j) by {
                    if j < i {
                        if exists|k: int| 0 <= k < before.len() && before[k] == j {
                            let k = choose|k: int| 0 <= k < before.len() && before[k] == j;
                            assert(out@[k] == j);
                        }
                        if exists|k: int| 0 <= k < out@.len() && out@[k] == j {
                            let k = choose|k: int| 0 <= k < out@.len() && out@[k] == j;
                            assert(k < before.len());
                            assert(before[k] == j);
                        }
                    } else {
                        if exists|k: int| 0 <= k < out@.len() && out@[k] == j {
                            let k = choose|k: int| 0 <= k < out@.len() && out@[k] == j;
                            if k < before.len() {
                                assert(before[k] < i);
                            }
                        }
                    }
                }
            }
        }
        out
    }

    /// Indices of the string artefacts shown under the search query.
    pub fn filtered_strings(&self) -> (r: Vec<usize>)
        ensures
            forall|k: int| 0 <= k < r@.len() ==> (#[trigger] r@[k]) < self.strings@.len(),
            forall|k: int, m: int| 0 <= k < m < r@.len() ==> r@[k] < r@[m],
            forall|i: int|
                0 <= i < self.strings@.len() ==> (artefact_shown(#[trigger] self.strings@[i], self.search_query@)
                    <==> exists|k: int| 0 <= k < r@.len() && r@[k] == i),
    {
        let q = lowercase(self.search_query.as_str());
        let qc = chars_of(q.as_str());
        let empty_query = self.search_query.as_str().is_empty();
        let mut out: Vec<usize> = Vec::new();
        let n = self.strings.len();
        for i in 0..n
            invariant
                n == self.strings@.len(),
                qc@ == unicode_lowercase(self.search_query@),
                empty_query == (self.search_query@.len() == 0),
                forall|k: int| 0 <= k < out@.len() ==> (#[trigger] out@[k]) < i,
                forall|k: int, m: int| 0 <= k < m < out@.len() ==> out@[k] < out@[m],
                forall|j: int|
                    0 <= j < i ==> (artefact_shown(#[trigger] self.strings@[j], self.search_query@)
                        <==> exists|k: int| 0 <= k < out@.len() && out@[k] == j),
        {
            let s = &self.strings[i];
            let shown = if empty_query {
                true
            } else {
                let c = lowercase(s.content.as_str());
                let cc = chars_of(c.as_str());
                crate::text::contains(&cc, &qc)
            };
            let ghost before = out@;
            if shown {
                out.push(i);
                proof {
                    assert(out@[before.len() as int] == i);
                }
            }
            proof {
                assert forall|j: int| 0 <= j < i + 1 implies (artefact_shown(
                    #[trigger] self.strings@[j],
                    self.search_query@,
                ) <==> exists|k: int| 0 <= k < out@.len() && out@[k] == j) by {
                    if j < i {
                        if exists|k: int| 0 <= k < before.len() && before[k] == j {
                            let k = choose|k: int| 0 <= k < before.len() && before[k] == j;
                            assert(out@[k] == j);
                        }
                        if exists|k: int| 0 <= k < out@.len() && out@[k] == j {
                            let k = choose|k: int| 0 <= k < out@.len() && out@[k] == j;
                            assert(k < before.len());
                            assert(before[k] == j);
                        }
                    } else {
                        if exists|k: int| 0 <= k < out@.len() && out@[k] == j {
                            let k = choose|k: int| 0 <= k < out@.len() && out@[k] == j;
                            if k < before.len() {
                                assert(before[k] < i);
                            }
                        }
                    }
                }
            }
        }
        out
    }
}

impl Default for ResultsPanel {
    fn default() -> (r: Self)
        ensures
            r.is_cleared(),
            r.run_path is None,
    {
        ResultsPanel::new()
    }
}

/// The file filters compose: a type filter and a query together show exactly
/// the files that each shows alone. With neither every file is shown; a type
/// filter alone shows the files of that type; a non-empty query alone shows the
/// files whose lower-cased path contains the lower-cased query.
pub proof fn lemma_file_filters_compose(f: CarvedFile, t: Seq<char>, q: Seq<char>)
    ensures
        file_shown(f, Some(t), q) <==> (file_shown(f, Some(t), Seq::empty()) && file_shown(f, None, q)),
        file_shown(f, None, Seq::empty()),
        file_shown(f, Some(t), Seq::empty()) <==> f.file_type@ == t,
        q.len() > 0 ==> (file_shown(f, None, q) <==> contains_seq(
            unicode_lowercase(f.path@),
            unicode_lowercase(q),
        )),
{
}

/// A non-empty query shows an artefact exactly when its lower-cased content
/// contains the lower-cased query; an empty one shows every artefact.
pub proof fn lemma_artefact_filter(a: StringArtefact, q: Seq<char>)
    ensures
        artefact_shown(a, Seq::empty()),
        q.len() > 0 ==> (artefact_shown(a, q) <==> contains_seq(unicode_lowercase(a.content@), unicode_lowercase(q))),
{
}

} // verus!
