//! Decoding metadata rows into carved files and string artefacts: CSV rows,
//! JSON Lines objects and Parquet columns, each in the current schema and in
//! the older one SwiftBeaver wrote.

use vstd::prelude::*;

use super::csv::{csv_table, csv_table_spec, row_fields, row_pairs, table_rows_view};
use super::types::{
    assoc, first_nonempty, first_nonempty_field, lookup_value, pair_views, str_seq_views,
    CarvedFile, MetadataSummary, StringArtefact,
};
use crate::scan::progress::opt_view;
use crate::text::{
    ascii_lower_seq, chars_of, dec, eq_str, parse_u64, parse_u64_spec, push_dec, string_of,
    string_of_str, string_views, to_ascii_lower, trim, trim_ws,
};

verus! {

// ---------------------------------------------------------------------------
// Text values
// ---------------------------------------------------------------------------

/// What `parse_bool_value` reads as true: `true`, `1` or `yes`, trimmed and
/// in any ASCII case. Every other text reads as false.
pub open spec fn is_true_text(v: Seq<char>) -> bool {
    let l = ascii_lower_seq(trim(v));
    l == "true"@ || l == "1"@ || l == "yes"@
}

/// Reads a metadata boolean: `true`/`1`/`yes` and `false`/`0`/`no` (trimmed,
/// any ASCII case); an unrecognised value counts as false.
pub fn parse_bool_value(value: &str) -> (r: bool)
    ensures
        r == is_true_text(value@),
{
    let c = chars_of(value);
    let t = trim_ws(&c);
    let l = to_ascii_lower(&t);
    proof {
        reveal_strlit("true");
        reveal_strlit("1");
        reveal_strlit("yes");
    }
    eq_str(&l, "true") || eq_str(&l, "1") || eq_str(&l, "yes")
}

/// A minus sign followed by zeros only: the one negative spelling that an
/// `i64` parse accepts and a `u64` conversion keeps (as 0).
pub open spec fn negative_zero(v: Seq<char>) -> bool {
    v.len() >= 2 && v[0] == '-' && forall|i: int| 1 <= i < v.len() ==> #[trigger] v[i] == '0'
}

/// A cell read as `u64`, falling back to an `i64` reading that fits.
pub open spec fn u64_text(v: Seq<char>) -> Option<u64> {
    match parse_u64_spec(v) {
        Some(n) => Some(n),
        None => if negative_zero(v) {
            Some(0)
        } else {
            None
        },
    }
}

fn u64_text_exec(v: &[char]) -> (r: Option<u64>)
    ensures
        r == u64_text(v@),
{
    match parse_u64(v) {
        Some(n) => Some(n),
        None => {
            let n = v.len();
            if n < 2 || v[0] != '-' {
                return None;
            }
            let mut i: usize = 1;
            while i < n
                invariant
                    n == v@.len(),
                    1 <= i <= n,
                    parse_u64_spec(v@) == None::<u64>,
                    forall|j: int| 1 <= j < i ==> #[trigger] v@[j] == '0',
                decreases n - i,
            {
                if v[i] != '0' {
                    assert(1 <= i < v@.len() && v@[i as int] != '0');
                    assert(!negative_zero(v@));
                    return None;
                }
                i = i + 1;
            }
            Some(0)
        },
    }
}

// ---------------------------------------------------------------------------
// CSV cells
// ---------------------------------------------------------------------------

/// The value of the first key of `keys` that the row has.
pub open spec fn first_present<V>(row: Seq<(Seq<char>, V)>, keys: Seq<Seq<char>>) -> Option<V>
    decreases keys.len(),
{
    if keys.len() == 0 {
        None
    } else {
        match assoc(row, keys[0]) {
            Some(v) => Some(v),
            None => first_present(row, keys.drop_first()),
        }
    }
}

/// The cell of the first present key, when it is not empty.
pub open spec fn cell_text(row: Seq<(Seq<char>, Seq<char>)>, keys: Seq<Seq<char>>) -> Option<Seq<char>> {
    match first_present(row, keys) {
        Some(v) => if v.len() > 0 {
            Some(v)
        } else {
            None
        },
        None => None,
    }
}

/// The first present, non-empty cell of `keys`, read as a boolean.
pub open spec fn cell_bool(row: Seq<(Seq<char>, Seq<char>)>, keys: Seq<Seq<char>>) -> Option<bool> {
    match first_nonempty(row, keys) {
        Some(v) => Some(is_true_text(v)),
        None => None,
    }
}

/// `cell_text` read as a `u64`.
pub open spec fn cell_u64(row: Seq<(Seq<char>, Seq<char>)>, keys: Seq<Seq<char>>) -> Option<u64> {
    match cell_text(row, keys) {
        Some(v) => u64_text(v),
        None => None,
    }
}

fn first_present_cell<'a>(row: &'a Vec<(String, String)>, keys: &[&str]) -> (r: Option<&'a String>)
    ensures
        match r {
            Some(v) => first_present(pair_views(row@), str_seq_views(keys@)) == Some(v@),
            None => first_present(pair_views(row@), str_seq_views(keys@)) == None::<Seq<char>>,
        },
{
    let ghost fv = pair_views(row@);
    let ghost nv = str_seq_views(keys@);
    let mut i: usize = 0;
    assert(nv.skip(0) =~= nv);
    while i < keys.len()
        invariant
            i <= keys@.len(),
            fv == pair_views(row@),
            nv == str_seq_views(keys@),
            first_present(fv, nv) == first_present(fv, nv.skip(i as int)),
        decreases keys@.len() - i,
    {
        proof {
            assert(nv.skip(i as int).drop_first() =~= nv.skip(i + 1));
            assert(nv.skip(i as int)[0] == keys@[i as int]@);
        }
        match lookup_value(row, keys[i]) {
            Some(v) => {
                return Some(v);
            },
            None => {},
        }
        i = i + 1;
    }
    proof {
        assert(nv.skip(i as int) =~= Seq::<Seq<char>>::empty());
    }
    None
}

/// The cell of the first present key, when it is not empty.
pub fn csv_string(row: &Vec<(String, String)>, keys: &[&str]) -> (r: Option<String>)
    ensures
        opt_view(r) == cell_text(pair_views(row@), str_seq_views(keys@)),
{
    match first_present_cell(row, keys) {
        Some(v) => if v.as_str().is_empty() {
            None
        } else {
            Some(v.clone())
        },
        None => None,
    }
}

/// The first present, non-empty cell of `keys`, read as a boolean.
pub fn csv_bool(row: &Vec<(String, String)>, keys: &[&str]) -> (r: Option<bool>)
    ensures
        r == cell_bool(pair_views(row@), str_seq_views(keys@)),
{
    match first_nonempty_field(row, keys) {
        Some(v) => Some(parse_bool_value(v)),
        None => None,
    }
}

/// The cell of the first present key read as a `u64`.
pub fn csv_u64(row: &Vec<(String, String)>, keys: &[&str]) -> (r: Option<u64>)
    ensures
        r == cell_u64(pair_views(row@), str_seq_views(keys@)),
{
    match csv_string(row, keys) {
        Some(v) => {
            let c = chars_of(v.as_str());
            u64_text_exec(&c)
        },
        None => None,
    }
}

// ---------------------------------------------------------------------------
// Artefact kinds
// ---------------------------------------------------------------------------

/// The canonical spelling of an artefact kind written in any of the schemas.
pub open spec fn normalized_kind(raw: Seq<char>) -> Seq<char> {
    if raw == "Url"@ || raw == "URL"@ || raw == "url"@ {
        "url"@
    } else if raw == "Email"@ || raw == "email"@ {
        "email"@
    } else if raw == "Phone"@ || raw == "phone"@ {
        "phone"@
    } else if raw == "BitlockerRecoveryPassword"@ || raw == "BitLockerRecoveryPassword"@ || raw
        == "bitlocker_recovery_password"@ {
        "bitlocker_recovery_password"@
    } else if raw == "GenericString"@ || raw == "string"@ {
        "string"@
    } else {
        raw
    }
}

/// Canonical spelling of an artefact kind.
pub fn normalize_artefact_type(raw: &str) -> (r: String)
    ensures
        r@ == normalized_kind(raw@),
{
    let c = chars_of(raw);
    if eq_str(&c, "Url") || eq_str(&c, "URL") || eq_str(&c, "url") {
        string_of_str("url")
    } else if eq_str(&c, "Email") || eq_str(&c, "email") {
        string_of_str("email")
    } else if eq_str(&c, "Phone") || eq_str(&c, "phone") {
        string_of_str("phone")
    } else if eq_str(&c, "BitlockerRecoveryPassword") || eq_str(&c, "BitLockerRecoveryPassword")
        || eq_str(&c, "bitlocker_recovery_password") {
        string_of_str("bitlocker_recovery_password")
    } else if eq_str(&c, "GenericString") || eq_str(&c, "string") {
        string_of_str("string")
    } else {
        string_of_str(raw)
    }
}

/// The keys the value of an artefact of `kind` is read from, in order.
pub open spec fn value_keys(kind: Seq<char>) -> Seq<Seq<char>> {
    if kind == "phone"@ {
        seq!["phone_e164"@, "value"@, "content"@, "phone_raw"@]
    } else if kind == "bitlocker_recovery_password"@ {
        seq!["recovery_password"@, "value"@, "content"@]
    } else {
        seq!["value"@, "content"@, "url"@, "email"@]
    }
}

fn value_keys_exec(kind: &str) -> (r: Vec<&'static str>)
    ensures
        str_seq_views(r@) == value_keys(kind@),
{
    let k = chars_of(kind);
    let r = if eq_str(&k, "phone") {
        vec!["phone_e164", "value", "content", "phone_raw"]
    } else if eq_str(&k, "bitlocker_recovery_password") {
        vec!["recovery_password", "value", "content"]
    } else {
        vec!["value", "content", "url", "email"]
    };
    proof {
        assert(str_seq_views(r@) =~= value_keys(kind@));
    }
    r
}

/// `end - start`, or 0 when the end lies before the start.
pub open spec fn span(start: u64, end: u64) -> u64 {
    if end >= start {
        (end - start) as u64
    } else {
        0
    }
}

pub open spec fn or_default(o: Option<Seq<char>>) -> Seq<char> {
    match o {
        Some(v) => v,
        None => Seq::empty(),
    }
}

pub open spec fn narrow_u32(o: Option<u64>) -> Option<u32> {
    match o {
        Some(v) => if v <= u32::MAX {
            Some(v as u32)
        } else {
            None
        },
        None => None,
    }
}

fn narrow_u32_exec(o: Option<u64>) -> (r: Option<u32>)
    ensures
        r == narrow_u32(o),
{
    match o {
        Some(v) => if v <= u32::MAX as u64 {
            Some(v as u32)
        } else {
            None
        },
        None => None,
    }
}

/// The size of a record: its own `size`, else the span from start to end, else 0.
pub open spec fn size_or_span(size: Option<u64>, start: u64, end: Option<u64>) -> u64 {
    match size {
        Some(s) => s,
        None => match end {
            Some(e) => span(start, e),
            None => 0,
        },
    }
}

fn size_or_span_exec(size: Option<u64>, start: u64, end: Option<u64>) -> (r: u64)
    ensures
        r == size_or_span(size, start, end),
{
    match size {
        Some(s) => s,
        None => match end {
            Some(e) => e.saturating_sub(start),
            None => 0,
        },
    }
}

// ---------------------------------------------------------------------------
// Carved files from CSV rows
// ---------------------------------------------------------------------------

/// The errors that a text cell or member gives: itself when it is not empty.
pub open spec fn text_errors(t: Option<Seq<char>>) -> Seq<Seq<char>> {
    match t {
        Some(v) => if v.len() > 0 {
            seq![v]
        } else {
            seq![]
        },
        None => seq![],
    }
}

fn errors_of(t: Option<String>) -> (r: Vec<String>)
    ensures
        string_views(r@) == text_errors(opt_view(t)),
{
    let mut r: Vec<String> = Vec::new();
    match t {
        Some(v) => {
            if v.unicode_len() > 0 {
                r.push(v);
            }
        },
        None => {},
    }
    proof {
        assert(string_views(r@) =~= text_errors(opt_view(t)));
    }
    r
}

/// `f` is the carved file described by CSV row `row`, the `idx`-th data row.
pub open spec fn csv_carved(f: CarvedFile, row: Seq<(Seq<char>, Seq<char>)>, idx: u64) -> bool {
    let start = match cell_u64(row, seq!["offset"@, "global_start"@]) {
        Some(v) => v,
        None => 0,
    };
    let end = cell_u64(row, seq!["global_end"@]);
    &&& f.id == (match cell_u64(row, seq!["id"@]) {
        Some(v) => v,
        None => idx,
    })
    &&& opt_view(f.run_id) == cell_text(row, seq!["run_id"@])
    &&& f.file_type@ == or_default(cell_text(row, seq!["file_type"@]))
    &&& f.path@ == or_default(cell_text(row, seq!["output_path"@, "carved_path"@, "path"@]))
    &&& opt_view(f.extension) == cell_text(row, seq!["extension"@])
    &&& f.global_start == start
    &&& f.global_end == (match end {
        Some(e) => e,
        None => 0,
    })
    &&& f.size == size_or_span(cell_u64(row, seq!["size"@]), start, end)
    &&& opt_view(f.handler_id) == cell_text(row, seq!["handler_id"@])
    &&& opt_view(f.md5) == cell_text(row, seq!["md5"@])
    &&& opt_view(f.sha256) == cell_text(row, seq!["sha256"@])
    &&& f.validated == cell_bool(row, seq!["is_valid"@, "validated"@])
    &&& f.truncated == (cell_bool(row, seq!["truncated"@]) == Some(true))
    &&& string_views(f.errors@) == text_errors(cell_text(row, seq!["errors"@, "error"@]))
    &&& opt_view(f.pattern_id) == cell_text(row, seq!["pattern_id"@])
    &&& f.is_duplicate == (cell_bool(row, seq!["is_duplicate"@]) == Some(true))
    &&& f.duplicate_of_offset == cell_u64(row, seq!["duplicate_of_offset"@])
    &&& opt_view(f.mime_type) == cell_text(row, seq!["mime_type"@])
    &&& f.width == narrow_u32(cell_u64(row, seq!["width"@]))
    &&& f.height == narrow_u32(cell_u64(row, seq!["height"@]))
}

fn names1(a: &'static str) -> (r: Vec<&'static str>)
    ensures
        str_seq_views(r@) == seq![a@],
{
    let r = vec![a];
    proof {
        assert(str_seq_views(r@) =~= seq![a@]);
    }
    r
}

fn names2(a: &'static str, b: &'static str) -> (r: Vec<&'static str>)
    ensures
        str_seq_views(r@) == seq![a@, b@],
{
    let r = vec![a, b];
    proof {
        assert(str_seq_views(r@) =~= seq![a@, b@]);
    }
    r
}

fn names3(a: &'static str, b: &'static str, c: &'static str) -> (r: Vec<&'static str>)
    ensures
        str_seq_views(r@) == seq![a@, b@, c@],
{
    let r = vec![a, b, c];
    proof {
        assert(str_seq_views(r@) =~= seq![a@, b@, c@]);
    }
    r
}

/// The carved file described by a CSV row, the `idx`-th data row of its file.
pub fn carved_file_from_csv_row(row: &Vec<(String, String)>, idx: u64) -> (f: CarvedFile)
    ensures
        csv_carved(f, pair_views(row@), idx),
{
    let start = match csv_u64(row, names2("offset", "global_start").as_slice()) {
        Some(v) => v,
        None => 0,
    };
    let end = csv_u64(row, names1("global_end").as_slice());
    let size = size_or_span_exec(csv_u64(row, names1("size").as_slice()), start, end);
    let id = match csv_u64(row, names1("id").as_slice()) {
        Some(v) => v,
        None => idx,
    };
    let file_type = match csv_string(row, names1("file_type").as_slice()) {
        Some(v) => v,
        None => String::new(),
    };
    let path = match csv_string(row, names3("output_path", "carved_path", "path").as_slice()) {
        Some(v) => v,
        None => String::new(),
    };
    let truncated = match csv_bool(row, names1("truncated").as_slice()) {
        Some(b) => b,
        None => false,
    };
    let is_duplicate = match csv_bool(row, names1("is_duplicate").as_slice()) {
        Some(b) => b,
        None => false,
    };
    CarvedFile {
        id,
        run_id: csv_string(row, names1("run_id").as_slice()),
        file_type,
        path,
        extension: csv_string(row, names1("extension").as_slice()),
        global_start: start,
        global_end: match end {
            Some(e) => e,
            None => 0,
        },
        size,
        handler_id: csv_string(row, names1("handler_id").as_slice()),
        md5: csv_string(row, names1("md5").as_slice()),
        sha256: csv_string(row, names1("sha256").as_slice()),
        validated: csv_bool(row, names2("is_valid", "validated").as_slice()),
        truncated,
        errors: errors_of(csv_string(row, names2("errors", "error").as_slice())),
        pattern_id: csv_string(row, names1("pattern_id").as_slice()),
        is_duplicate,
        duplicate_of_offset: csv_u64(row, names1("duplicate_of_offset").as_slice()),
        mime_type: csv_string(row, names1("mime_type").as_slice()),
        width: narrow_u32_exec(csv_u64(row, names1("width").as_slice())),
        height: narrow_u32_exec(csv_u64(row, names1("height").as_slice())),
    }
}

/// The carved files of a `carved_files.csv` text, one per data row.
pub fn carved_files_from_csv(text: &str) -> (r: Result<Vec<CarvedFile>, String>)
    ensures
        match r {
            Ok(fs) => match csv_table_spec(text@) {
                Ok((h, rows)) => fs@.len() == rows.len() && forall|i: int|
                    0 <= i < rows.len() ==> csv_carved(#[trigger] fs@[i], row_pairs(h, rows[i]), i as u64),
                Err(_) => false,
            },
            Err(e) => csv_table_spec(text@) == Err::<(Seq<Seq<char>>, Seq<Seq<Seq<char>>>), _>(e@),
        },
{
    let c = chars_of(text);
    let table = match csv_table(&c) {
        Ok(t) => t,
        Err(e) => {
            return Err(e);
        },
    };
    let mut out: Vec<CarvedFile> = Vec::new();
    let n = table.rows.len();
    let ghost h = string_views(table.header@);
    let ghost rows = table_rows_view(table.rows@);
    for i in 0..n
        invariant
            n == table.rows@.len(),
            h == string_views(table.header@),
            rows == table_rows_view(table.rows@),
            out@.len() == i,
            forall|j: int| 0 <= j < i ==> csv_carved(#[trigger] out@[j], row_pairs(h, rows[j]), j as u64),
    {
        let fields = row_fields(&table.header, &table.rows[i]);
        let f = carved_file_from_csv_row(&fields, i as u64);
        out.push(f);
    }
    Ok(out)
}

// ---------------------------------------------------------------------------
// String artefacts from CSV rows
// ---------------------------------------------------------------------------

pub open spec fn raw_kind(t: Option<Seq<char>>) -> Seq<char> {
    match t {
        Some(v) => v,
        None => "string"@,
    }
}

/// `a` is the string artefact described by CSV row `row`.
pub open spec fn csv_artefact(a: StringArtefact, row: Seq<(Seq<char>, Seq<char>)>) -> bool {
    let kind = normalized_kind(raw_kind(cell_text(row, seq!["artefact_type"@, "artefact_kind"@])));
    let start = match cell_u64(row, seq!["offset"@, "global_start"@]) {
        Some(v) => v,
        None => 0,
    };
    let end = cell_u64(row, seq!["global_end"@]);
    &&& a.artefact_kind@ == kind
    &&& a.content@ == or_default(cell_text(row, value_keys(kind)))
    &&& a.global_start == start
    &&& a.global_end == end
    &&& a.length == size_or_span(cell_u64(row, seq!["length"@]), start, end)
    &&& opt_view(a.encoding) == cell_text(row, seq!["encoding"@])
    &&& opt_view(a.source) == cell_text(row, seq!["source"@])
    &&& opt_view(a.run_id) == cell_text(row, seq!["run_id"@])
}

/// The string artefact described by a CSV row.
pub fn string_artefact_from_csv_row(row: &Vec<(String, String)>) -> (a: StringArtefact)
    ensures
        csv_artefact(a, pair_views(row@)),
{
    let raw = match csv_string(row, names2("artefact_type", "artefact_kind").as_slice()) {
        Some(v) => v,
        None => string_of_str("string"),
    };
    let kind = normalize_artefact_type(raw.as_str());
    let start = match csv_u64(row, names2("offset", "global_start").as_slice()) {
        Some(v) => v,
        None => 0,
    };
    let end = csv_u64(row, names1("global_end").as_slice());
    let length = size_or_span_exec(csv_u64(row, names1("length").as_slice()), start, end);
    let keys = value_keys_exec(kind.as_str());
    let content = match csv_string(row, keys.as_slice()) {
        Some(v) => v,
        None => String::new(),
    };
    StringArtefact {
        artefact_kind: kind,
        content,
        global_start: start,
        global_end: end,
        length,
        encoding: csv_string(row, names1("encoding").as_slice()),
        source: csv_string(row, names1("source").as_slice()),
        run_id: csv_string(row, names1("run_id").as_slice()),
    }
}

/// The string artefacts of a `string_artefacts.csv` text, one per data row.
pub fn string_artefacts_from_csv(text: &str) -> (r: Result<Vec<StringArtefact>, String>)
    ensures
        match r {
            Ok(v) => match csv_table_spec(text@) {
                Ok((h, rows)) => v@.len() == rows.len() && forall|i: int|
                    0 <= i < rows.len() ==> csv_artefact(#[trigger] v@[i], row_pairs(h, rows[i])),
                Err(_) => false,
            },
            Err(e) => csv_table_spec(text@) == Err::<(Seq<Seq<char>>, Seq<Seq<Seq<char>>>), _>(e@),
        },
{
    let c = chars_of(text);
    let table = match csv_table(&c) {
        Ok(t) => t,
        Err(e) => {
            return Err(e);
        },
    };
    let mut out: Vec<StringArtefact> = Vec::new();
    let n = table.rows.len();
    let ghost h = string_views(table.header@);
    let ghost rows = table_rows_view(table.rows@);
    for i in 0..n
        invariant
            n == table.rows@.len(),
            h == string_views(table.header@),
            rows == table_rows_view(table.rows@),
            out@.len() == i,
            forall|j: int| 0 <= j < i ==> csv_artefact(#[trigger] out@[j], row_pairs(h, rows[j])),
    {
        let fields = row_fields(&table.header, &table.rows[i]);
        let a = string_artefact_from_csv_row(&fields);
        out.push(a);
    }
    Ok(out)
}

// ---------------------------------------------------------------------------
// JSON Lines objects
// ---------------------------------------------------------------------------

/// A top-level value of a JSON object, as far as decoding reads it: a string,
/// a boolean, a non-negative integer that fits in `u64`, or anything else
/// (null, negative or fractional numbers, arrays, objects).
#[derive(Debug)]
pub enum JsonScalar {
    Str(String),
    Bool(bool),
    UInt(u64),
    Other,
}

/// The members of one JSON object (each key once).
#[derive(Debug)]
pub struct JsonRow {
    pub fields: Vec<(String, JsonScalar)>,
}

pub open spec fn json_views(v: Seq<(String, JsonScalar)>) -> Seq<(Seq<char>, JsonScalar)> {
    v.map_values(|p: (String, JsonScalar)| (p.0@, p.1))
}

/// The first of `keys` whose member is a string.
pub open spec fn json_text(row: Seq<(Seq<char>, JsonScalar)>, keys: Seq<Seq<char>>) -> Option<Seq<char>>
    decreases keys.len(),
{
    if keys.len() == 0 {
        None
    } else {
        match assoc(row, keys[0]) {
            Some(JsonScalar::Str(s)) => Some(s@),
            _ => json_text(row, keys.drop_first()),
        }
    }
}

/// The first of `keys` present, read as a boolean: a JSON boolean as is, a
/// string as `parse_bool_value` reads it, anything else as false.
pub open spec fn json_flag(row: Seq<(Seq<char>, JsonScalar)>, keys: Seq<Seq<char>>) -> Option<bool>
    decreases keys.len(),
{
    if keys.len() == 0 {
        None
    } else {
        match assoc(row, keys[0]) {
            Some(JsonScalar::Bool(b)) => Some(b),
            Some(JsonScalar::Str(s)) => Some(is_true_text(s@)),
            Some(_) => Some(false),
            None => json_flag(row, keys.drop_first()),
        }
    }
}

/// The first of `keys` whose member is a non-negative integer.
pub open spec fn json_number(row: Seq<(Seq<char>, JsonScalar)>, keys: Seq<Seq<char>>) -> Option<u64>
    decreases keys.len(),
{
    if keys.len() == 0 {
        None
    } else {
        match assoc(row, keys[0]) {
            Some(JsonScalar::UInt(n)) => Some(n),
            _ => json_number(row, keys.drop_first()),
        }
    }
}

fn lookup_json<'a>(fields: &'a Vec<(String, JsonScalar)>, key: &str) -> (r: Option<&'a JsonScalar>)
    ensures
        match r {
            Some(v) => assoc(json_views(fields@), key@) == Some(*v),
            None => assoc(json_views(fields@), key@) == None::<JsonScalar>,
        },
{
    let ghost pv = json_views(fields@);
    let mut i = fields.len();
    while i > 0
        invariant
            i <= fields@.len(),
            pv == json_views(fields@),
            forall|j: int| i <= j < fields@.len() ==> (#[trigger] pv[j]).0 != key@,
        decreases i,
    {
        let k = chars_of(fields[i - 1].0.as_str());
        if eq_str(&k, key) {
            proof {
                super::types::lemma_assoc_last_at(pv, key@, i - 1);
            }
            return Some(&fields[i - 1].1);
        }
        i = i - 1;
    }
    proof {
        super::types::lemma_assoc_absent(pv, key@);
    }
    None
}

/// The first of `keys` whose member is a string.
pub fn json_string(row: &JsonRow, keys: &[&str]) -> (r: Option<String>)
    ensures
        opt_view(r) == json_text(json_views(row.fields@), str_seq_views(keys@)),
{
    let ghost fv = json_views(row.fields@);
    let ghost nv = str_seq_views(keys@);
    let mut i: usize = 0;
    assert(nv.skip(0) =~= nv);
    while i < keys.len()
        invariant
            i <= keys@.len(),
            fv == json_views(row.fields@),
            nv == str_seq_views(keys@),
            json_text(fv, nv) == json_text(fv, nv.skip(i as int)),
        decreases keys@.len() - i,
    {
        proof {
            assert(nv.skip(i as int).drop_first() =~= nv.skip(i + 1));
            assert(nv.skip(i as int)[0] == keys@[i as int]@);
        }
        match lookup_json(&row.fields, keys[i]) {
            Some(JsonScalar::Str(s)) => {
                return Some(s.clone());
            },
            _ => {},
        }
        i = i + 1;
    }
    proof {
        assert(nv.skip(i as int) =~= Seq::<Seq<char>>::empty());
    }
    None
}

/// The first of `keys` present, read as a boolean.
pub fn json_bool(row: &JsonRow, keys: &[&str]) -> (r: Option<bool>)
    ensures
        r == json_flag(json_views(row.fields@), str_seq_views(keys@)),
{
    let ghost fv = json_views(row.fields@);
    let ghost nv = str_seq_views(keys@);
    let mut i: usize = 0;
    assert(nv.skip(0) =~= nv);
    while i < keys.len()
        invariant
            i <= keys@.len(),
            fv == json_views(row.fields@),
            nv == str_seq_views(keys@),
            json_flag(fv, nv) == json_flag(fv, nv.skip(i as int)),
        decreases keys@.len() - i,
    {
        proof {
            assert(nv.skip(i as int).drop_first() =~= nv.skip(i + 1));
            assert(nv.skip(i as int)[0] == keys@[i as int]@);
        }
        match lookup_json(&row.fields, keys[i]) {
            Some(JsonScalar::Bool(b)) => {
                return Some(*b);
            },
            Some(JsonScalar::Str(s)) => {
                return Some(parse_bool_value(s.as_str()));
            },
            Some(_) => {
                return Some(false);
            },
            None => {},
        }
        i = i + 1;
    }
    proof {
        assert(nv.skip(i as int) =~= Seq::<Seq<char>>::empty());
    }
    None
}

/// The first of `keys` whose member is a non-negative integer.
pub fn json_u64(row: &JsonRow, keys: &[&str]) -> (r: Option<u64>)
    ensures
        r == json_number(json_views(row.fields@), str_seq_views(keys@)),
{
    let ghost fv = json_views(row.fields@);
    let ghost nv = str_seq_views(keys@);
    let mut i: usize = 0;
    assert(nv.skip(0) =~= nv);
    while i < keys.len()
        invariant
            i <= keys@.len(),
            fv == json_views(row.fields@),
            nv == str_seq_views(keys@),
            json_number(fv, nv) == json_number(fv, nv.skip(i as int)),
        decreases keys@.len() - i,
    {
        proof {
            assert(nv.skip(i as int).drop_first() =~= nv.skip(i + 1));
            assert(nv.skip(i as int)[0] == keys@[i as int]@);
        }
        match lookup_json(&row.fields, keys[i]) {
            Some(JsonScalar::UInt(n)) => {
                return Some(*n);
            },
            _ => {},
        }
        i = i + 1;
    }
    proof {
        assert(nv.skip(i as int) =~= Seq::<Seq<char>>::empty());
    }
    None
}

pub open spec fn has_member(row: Seq<(Seq<char>, JsonScalar)>, key: Seq<char>) -> bool {
    assoc(row, key) is Some
}

fn has_member_exec(row: &JsonRow, key: &str) -> (r: bool)
    ensures
        r == has_member(json_views(row.fields@), key@),
{
    match lookup_json(&row.fields, key) {
        Some(_) => true,
        None => false,
    }
}

/// A carved-file object in the older schema (none of `global_start`,
/// `carved_path`, `validated`): such an object is decoded field by field
/// into a `CarvedFile` with its aliases and defaults.
pub open spec fn legacy_carved(row: Seq<(Seq<char>, JsonScalar)>) -> bool {
    !has_member(row, "global_start"@) && !has_member(row, "carved_path"@) && !has_member(
        row,
        "validated"@,
    )
}

/// Whether a carved-file object is in the older schema.
pub fn is_legacy_carved_row(row: &JsonRow) -> (r: bool)
    ensures
        r == legacy_carved(json_views(row.fields@)),
{
    !has_member_exec(row, "global_start") && !has_member_exec(row, "carved_path")
        && !has_member_exec(row, "validated")
}

/// A string-artefact object in the older schema (none of `artefact_kind`,
/// `content`, `global_start`).
pub open spec fn legacy_artefact(row: Seq<(Seq<char>, JsonScalar)>) -> bool {
    !has_member(row, "artefact_kind"@) && !has_member(row, "content"@) && !has_member(
        row,
        "global_start"@,
    )
}

/// Whether a string-artefact object is in the older schema.
pub fn is_legacy_artefact_row(row: &JsonRow) -> (r: bool)
    ensures
        r == legacy_artefact(json_views(row.fields@)),
{
    !has_member_exec(row, "artefact_kind") && !has_member_exec(row, "content")
        && !has_member_exec(row, "global_start")
}

/// `f` is the carved file described by a current-schema object, with
/// `fallback_id` when it names no id.
#[verifier::opaque]
pub open spec fn json_carved(f: CarvedFile, row: Seq<(Seq<char>, JsonScalar)>, fallback_id: u64) -> bool {
    let start = match json_number(row, seq!["offset"@, "global_start"@]) {
        Some(v) => v,
        None => 0,
    };
    let end = json_number(row, seq!["global_end"@]);
    &&& f.id == (match json_number(row, seq!["id"@]) {
        Some(v) => v,
        None => fallback_id,
    })
    &&& opt_view(f.run_id) == json_text(row, seq!["run_id"@])
    &&& f.file_type@ == or_default(json_text(row, seq!["file_type"@]))
    &&& f.path@ == or_default(json_text(row, seq!["output_path"@, "carved_path"@]))
    &&& opt_view(f.extension) == json_text(row, seq!["extension"@])
    &&& f.global_start == start
    &&& f.global_end == (match end {
        Some(e) => e,
        None => 0,
    })
    &&& f.size == size_or_span(json_number(row, seq!["size"@]), start, end)
    &&& opt_view(f.handler_id) == json_text(row, seq!["handler_id"@])
    &&& opt_view(f.md5) == json_text(row, seq!["md5"@])
    &&& opt_view(f.sha256) == json_text(row, seq!["sha256"@])
    &&& f.validated == json_flag(row, seq!["is_valid"@, "validated"@])
    &&& f.truncated == (json_flag(row, seq!["truncated"@]) == Some(true))
    &&& string_views(f.errors@) == text_errors(json_text(row, seq!["errors"@, "error"@]))
    &&& opt_view(f.pattern_id) == json_text(row, seq!["pattern_id"@])
    &&& f.is_duplicate == (json_flag(row, seq!["is_duplicate"@]) == Some(true))
    &&& f.duplicate_of_offset == json_number(row, seq!["duplicate_of_offset"@])
    &&& opt_view(f.mime_type) == json_text(row, seq!["mime_type"@])
    &&& f.width == narrow_u32(json_number(row, seq!["width"@]))
    &&& f.height == narrow_u32(json_number(row, seq!["height"@]))
}

/// The carved file described by a current-schema object.
pub fn carved_file_from_json(row: &JsonRow, fallback_id: u64) -> (f: CarvedFile)
    ensures
        json_carved(f, json_views(row.fields@), fallback_id),
{
    let start = match json_u64(row, names2("offset", "global_start").as_slice()) {
        Some(v) => v,
        None => 0,
    };
    let end = json_u64(row, names1("global_end").as_slice());
    let size = size_or_span_exec(json_u64(row, names1("size").as_slice()), start, end);
    let id = match json_u64(row, names1("id").as_slice()) {
        Some(v) => v,
        None => fallback_id,
    };
    let file_type = match json_string(row, names1("file_type").as_slice()) {
        Some(v) => v,
        None => String::new(),
    };
    let path = match json_string(row, names2("output_path", "carved_path").as_slice()) {
        Some(v) => v,
        None => String::new(),
    };
    let truncated = match json_bool(row, names1("truncated").as_slice()) {
        Some(b) => b,
        None => false,
    };
    let is_duplicate = match json_bool(row, names1("is_duplicate").as_slice()) {
        Some(b) => b,
        None => false,
    };
    let f = CarvedFile {
        id,
        run_id: json_string(row, names1("run_id").as_slice()),
        file_type,
        path,
        extension: json_string(row, names1("extension").as_slice()),
        global_start: start,
        global_end: match end {
            Some(e) => e,
            None => 0,
        },
        size,
        handler_id: json_string(row, names1("handler_id").as_slice()),
        md5: json_string(row, names1("md5").as_slice()),
        sha256: json_string(row, names1("sha256").as_slice()),
        validated: json_bool(row, names2("is_valid", "validated").as_slice()),
        truncated,
        errors: errors_of(json_string(row, names2("errors", "error").as_slice())),
        pattern_id: json_string(row, names1("pattern_id").as_slice()),
        is_duplicate,
        duplicate_of_offset: json_u64(row, names1("duplicate_of_offset").as_slice()),
        mime_type: json_string(row, names1("mime_type").as_slice()),
        width: narrow_u32_exec(json_u64(row, names1("width").as_slice())),
        height: narrow_u32_exec(json_u64(row, names1("height").as_slice())),
    };
    proof {
        reveal(json_carved);
    }
    f
}

/// `a` is the string artefact described by a current-schema object.
#[verifier::opaque]
pub open spec fn json_artefact(a: StringArtefact, row: Seq<(Seq<char>, JsonScalar)>) -> bool {
    let kind = normalized_kind(raw_kind(json_text(row, seq!["artefact_type"@, "artefact_kind"@])));
    let start = match json_number(row, seq!["offset"@, "global_start"@]) {
        Some(v) => v,
        None => 0,
    };
    let end = json_number(row, seq!["global_end"@]);
    &&& a.artefact_kind@ == kind
    &&& a.content@ == or_default(json_text(row, value_keys(kind)))
    &&& a.global_start == start
    &&& a.global_end == end
    &&& a.length == size_or_span(json_number(row, seq!["length"@]), start, end)
    &&& opt_view(a.encoding) == json_text(row, seq!["encoding"@])
    &&& opt_view(a.source) == json_text(row, seq!["source"@])
    &&& opt_view(a.run_id) == json_text(row, seq!["run_id"@])
}

/// The string artefact described by a current-schema object.
pub fn string_artefact_from_json(row: &JsonRow) -> (a: StringArtefact)
    ensures
        json_artefact(a, json_views(row.fields@)),
{
    let raw = match json_string(row, names2("artefact_type", "artefact_kind").as_slice()) {
        Some(v) => v,
        None => string_of_str("string"),
    };
    let kind = normalize_artefact_type(raw.as_str());
    let start = match json_u64(row, names2("offset", "global_start").as_slice()) {
        Some(v) => v,
        None => 0,
    };
    let end = json_u64(row, names1("global_end").as_slice());
    let length = size_or_span_exec(json_u64(row, names1("length").as_slice()), start, end);
    let keys = value_keys_exec(kind.as_str());
    let content = match json_string(row, keys.as_slice()) {
        Some(v) => v,
        None => String::new(),
    };
    let a = StringArtefact {
        artefact_kind: kind,
        content,
        global_start: start,
        global_end: end,
        length,
        encoding: json_string(row, names1("encoding").as_slice()),
        source: json_string(row, names1("source").as_slice()),
        run_id: json_string(row, names1("run_id").as_slice()),
    };
    proof {
        reveal(json_artefact);
    }
    a
}

// ---------------------------------------------------------------------------
// JSON Lines files
// ---------------------------------------------------------------------------

/// One line of `carved_files.jsonl`: empty, not valid JSON, an object in the
/// current schema, or an object in the older schema with its decoding
/// (`None` when it did not decode).
#[derive(Debug)]
pub enum CarvedLine {
    Blank,
    Malformed,
    Current(JsonRow),
    Legacy(Option<CarvedFile>),
}

/// One line of `string_artefacts.jsonl` (or `strings.jsonl`).
#[derive(Debug)]
pub enum ArtefactLine {
    Blank,
    Malformed,
    Current(JsonRow),
    Legacy(Option<StringArtefact>),
}

pub open spec fn carved_line_blank(l: CarvedLine) -> bool {
    l is Blank
}

pub open spec fn carved_line_bad(l: CarvedLine) -> bool {
    l is Malformed || l matches CarvedLine::Legacy(None)
}


/// `f` is what line `l` decodes to when `id` files came before it: a current
/// object falls back to `id` when it names none; an older one keeps its id
/// unless that is 0.
#[verifier::opaque]
pub open spec fn carved_line_ok(l: CarvedLine, f: CarvedFile, id: u64) -> bool {
    match l {
        CarvedLine::Current(row) => json_carved(f, json_views(row.fields@), id),
        CarvedLine::Legacy(Some(g)) => f == (CarvedFile {
            id: if g.id == 0 {
                id
            } else {
                g.id
            },
            ..g
        }),
        _ => false,
    }
}

/// `files` are what the non-empty `lines` decode to, in order, the file of
/// each line falling back to its position among the files as its id.
pub open spec fn carved_lines_ok(lines: Seq<CarvedLine>, files: Seq<CarvedFile>) -> bool
    decreases lines.len(),
{
    if lines.len() == 0 {
        files.len() == 0
    } else if carved_line_blank(lines.last()) {
        carved_lines_ok(lines.drop_last(), files)
    } else {
        files.len() > 0 && carved_lines_ok(lines.drop_last(), files.drop_last()) && carved_line_ok(
            lines.last(),
            files.last(),
            (files.len() - 1) as u64,
        )
    }
}

pub open spec fn row_error(prefix: Seq<char>, j: int) -> Seq<char> {
    prefix + dec((j + 1) as nat)
}

/// The carved files of the lines of a JSON Lines file: empty lines are
/// skipped, and ids default to the number of files read before.
pub fn carved_files_from_jsonl(lines: Vec<CarvedLine>) -> (r: Result<Vec<CarvedFile>, String>)
    ensures
        match r {
            Ok(fs) => {
                &&& forall|j: int| 0 <= j < lines@.len() ==> !carved_line_bad(#[trigger] lines@[j])
                &&& carved_lines_ok(lines@, fs@)
            },
            Err(e) => exists|j: int|
                0 <= j < lines@.len() && carved_line_bad(#[trigger] lines@[j]) && (forall|k: int|
                    0 <= k < j ==> !carved_line_bad(#[trigger] lines@[k])) && e@ == row_error(
                    "Failed to parse carved-file metadata row "@,
                    j,
                ),
        },
{
    let ghost all = lines@;
    let mut pending = lines;
    let mut out: Vec<CarvedFile> = Vec::new();
    let n = pending.len();
    proof {
        assert(all.take(0) =~= Seq::<CarvedLine>::empty());
    }
    for i in 0..n
        invariant
            n == all.len(),
            all == lines@,
            pending@.len() == n,
            forall|j: int| i <= j < n ==> pending@[j] == all[j],
            forall|j: int| 0 <= j < i ==> !carved_line_bad(#[trigger] all[j]),
            out@.len() <= i,
            carved_lines_ok(all.take(i as int), out@),
    {
        let mut line = CarvedLine::Blank;
        pending.set_and_swap(i, &mut line);
        let ghost cur = all[i as int];
        proof {
            assert(all.take(i + 1).drop_last() =~= all.take(i as int));
            assert(all.take(i + 1).last() == cur);
        }
        let id = out.len() as u64;
        match line {
            CarvedLine::Blank => {},
            CarvedLine::Malformed => {
                let mut msg = chars_of("Failed to parse carved-file metadata row ");
                push_dec(&mut msg, (i + 1) as u64);
                let e = string_of(&msg);
                proof {
                    assert(carved_line_bad(all[i as int]));
                    assert(e@ == row_error("Failed to parse carved-file metadata row "@, i as int));
                }
                return Err(e);
            },
            CarvedLine::Current(row) => {
                let f = carved_file_from_json(&row, id);
                proof {
                    reveal(carved_line_ok);
                    assert(carved_line_ok(cur, f, id));
                }
                let ghost before = out@;
                out.push(f);
                proof {
                    assert(out@.drop_last() =~= before);
                }
            },
            CarvedLine::Legacy(Some(g)) => {
                let ghost g0 = g;
                let mut g = g;
                if g.id == 0 {
                    g.id = id;
                }
                proof {
                    reveal(carved_line_ok);
                    assert(carved_line_ok(cur, g, id));
                }
                let ghost before = out@;
                out.push(g);
                proof {
                    assert(out@.drop_last() =~= before);
                }
            },
            CarvedLine::Legacy(None) => {
                let mut msg = chars_of("Failed to parse carved-file metadata row ");
                push_dec(&mut msg, (i + 1) as u64);
                let e = string_of(&msg);
                proof {
                    assert(carved_line_bad(all[i as int]));
                    assert(e@ == row_error("Failed to parse carved-file metadata row "@, i as int));
                }
                return Err(e);
            },
        }
    }
    proof {
        assert(all.take(n as int) =~= all);
    }
    Ok(out)
}

pub open spec fn artefact_line_blank(l: ArtefactLine) -> bool {
    l is Blank
}

pub open spec fn artefact_line_bad(l: ArtefactLine) -> bool {
    l is Malformed || l matches ArtefactLine::Legacy(None)
}

/// `v` are what the non-empty `lines` decode to, in order.
pub open spec fn artefact_lines_ok(lines: Seq<ArtefactLine>, v: Seq<StringArtefact>) -> bool
    decreases lines.len(),
{
    if lines.len() == 0 {
        v.len() == 0
    } else if artefact_line_blank(lines.last()) {
        artefact_lines_ok(lines.drop_last(), v)
    } else {
        v.len() > 0 && artefact_lines_ok(lines.drop_last(), v.drop_last()) && artefact_line_ok(
            lines.last(),
            v.last(),
        )
    }
}

#[verifier::opaque]
pub open spec fn artefact_line_ok(l: ArtefactLine, a: StringArtefact) -> bool {
    match l {
        ArtefactLine::Current(row) => json_artefact(a, json_views(row.fields@)),
        ArtefactLine::Legacy(Some(g)) => a == g,
        _ => false,
    }
}

/// The string artefacts of the lines of a JSON Lines file (empty lines skipped).
pub fn string_artefacts_from_jsonl(lines: Vec<ArtefactLine>) -> (r: Result<Vec<StringArtefact>, String>)
    ensures
        match r {
            Ok(v) => {
                &&& forall|j: int| 0 <= j < lines@.len() ==> !artefact_line_bad(#[trigger] lines@[j])
                &&& artefact_lines_ok(lines@, v@)
            },
            Err(e) => exists|j: int|
                0 <= j < lines@.len() && artefact_line_bad(#[trigger] lines@[j]) && (forall|k: int|
                    0 <= k < j ==> !artefact_line_bad(#[trigger] lines@[k])) && e@ == row_error(
                    "Failed to parse string artefact row "@,
                    j,
                ),
        },
{
    let ghost all = lines@;
    let mut pending = lines;
    let mut out: Vec<StringArtefact> = Vec::new();
    let n = pending.len();
    proof {
        assert(all.take(0) =~= Seq::<ArtefactLine>::empty());
    }
    for i in 0..n
        invariant
            n == all.len(),
            all == lines@,
            pending@.len() == n,
            forall|j: int| i <= j < n ==> pending@[j] == all[j],
            forall|j: int| 0 <= j < i ==> !artefact_line_bad(#[trigger] all[j]),
            artefact_lines_ok(all.take(i as int), out@),
    {
        let mut line = ArtefactLine::Blank;
        pending.set_and_swap(i, &mut line);
        proof {
            assert(all.take(i + 1).drop_last() =~= all.take(i as int));
            assert(all.take(i + 1).last() == all[i as int]);
        }
        match line {
            ArtefactLine::Blank => {},
            ArtefactLine::Current(row) => {
                let a = string_artefact_from_json(&row);
                proof {
                    reveal(artefact_line_ok);
                    assert(artefact_line_ok(all[i as int], a));
                }
                let ghost before = out@;
                out.push(a);
                proof {
                    assert(out@.drop_last() =~= before);
                }
            },
            ArtefactLine::Legacy(Some(g)) => {
                proof {
                    reveal(artefact_line_ok);
                    assert(artefact_line_ok(all[i as int], g));
                }
                let ghost before = out@;
                out.push(g);
                proof {
                    assert(out@.drop_last() =~= before);
                }
            },
            _ => {
                let mut msg = chars_of("Failed to parse string artefact row ");
                push_dec(&mut msg, (i + 1) as u64);
                let e = string_of(&msg);
                proof {
                    assert(artefact_line_bad(all[i as int]));
                    assert(e@ == row_error("Failed to parse string artefact row "@, i as int));
                }
                return Err(e);
            },
        }
    }
    proof {
        assert(all.take(n as int) =~= all);
    }
    Ok(out)
}

// ---------------------------------------------------------------------------
// Parquet rows
// ---------------------------------------------------------------------------

/// The cells of one row of a `files_*.parquet` shard, each `None` when the
/// file has no such column (or, for the nullable ones, the cell is null).
/// Integer columns are read as `i64` whatever their width (`Int32`, `UInt32`,
/// `Int64`).
#[derive(Debug)]
pub struct ParquetFileRow {
    pub run_id: Option<String>,
    pub handler_id: Option<String>,
    pub file_type: Option<String>,
    pub carved_path: Option<String>,
    pub extension: Option<String>,
    pub global_start: Option<i64>,
    pub global_end: Option<i64>,
    pub size: Option<i64>,
    pub md5: Option<String>,
    pub sha256: Option<String>,
    pub validated: Option<bool>,
    pub truncated: Option<bool>,
    /// The `error` column: the carve or validation error, if any.
    pub error: Option<String>,
    pub pattern_id: Option<String>,
    pub is_duplicate: Option<bool>,
    pub duplicate_of_offset: Option<i64>,
    pub mime_type: Option<String>,
    pub width: Option<i64>,
    pub height: Option<i64>,
}

/// A signed column value read as unsigned (two's complement, as `as` does).
pub open spec fn as_unsigned(v: Option<i64>) -> u64 {
    match v {
        Some(x) => x as u64,
        None => 0,
    }
}

fn as_unsigned_exec(v: Option<i64>) -> (r: u64)
    ensures
        r == as_unsigned(v),
{
    match v {
        Some(x) => x as u64,
        None => 0,
    }
}

/// An optional signed offset read as unsigned (two's complement).
pub open spec fn opt_unsigned(v: Option<i64>) -> Option<u64> {
    match v {
        Some(x) => Some(x as u64),
        None => None,
    }
}

fn opt_unsigned_exec(v: Option<i64>) -> (r: Option<u64>)
    ensures
        r == opt_unsigned(v),
{
    match v {
        Some(x) => Some(x as u64),
        None => None,
    }
}

/// An image dimension: present when the cell holds a value that fits a `u32`.
pub open spec fn dimension(v: Option<i64>) -> Option<u32> {
    match v {
        Some(x) => if 0 <= x <= u32::MAX {
            Some(x as u32)
        } else {
            None
        },
        None => None,
    }
}

fn dimension_exec(v: Option<i64>) -> (r: Option<u32>)
    ensures
        r == dimension(v),
{
    match v {
        Some(x) => if 0 <= x && x <= u32::MAX as i64 {
            Some(x as u32)
        } else {
            None
        },
        None => None,
    }
}

/// `f` is the carved file of Parquet row `row`, the `idx`-th of its shard:
/// every column is carried over, absent text as empty (type and path) or
/// `None`, absent flags as `false`, absent numbers as 0, and a non-empty
/// `error` cell as the one error.
pub open spec fn parquet_carved(f: CarvedFile, row: ParquetFileRow, idx: u64) -> bool {
    &&& f.id == idx
    &&& opt_view(f.run_id) == opt_view(row.run_id)
    &&& opt_view(f.handler_id) == opt_view(row.handler_id)
    &&& f.file_type@ == or_default(opt_view(row.file_type))
    &&& f.path@ == or_default(opt_view(row.carved_path))
    &&& opt_view(f.extension) == opt_view(row.extension)
    &&& f.global_start == as_unsigned(row.global_start)
    &&& f.global_end == as_unsigned(row.global_end)
    &&& f.size == as_unsigned(row.size)
    &&& opt_view(f.md5) == opt_view(row.md5)
    &&& opt_view(f.sha256) == opt_view(row.sha256)
    &&& f.validated == row.validated
    &&& f.truncated == (row.truncated == Some(true))
    &&& string_views(f.errors@) == text_errors(opt_view(row.error))
    &&& opt_view(f.pattern_id) == opt_view(row.pattern_id)
    &&& f.is_duplicate == (row.is_duplicate == Some(true))
    &&& f.duplicate_of_offset == opt_unsigned(row.duplicate_of_offset)
    &&& opt_view(f.mime_type) == opt_view(row.mime_type)
    &&& f.width == dimension(row.width)
    &&& f.height == dimension(row.height)
}

fn empty_parquet_row() -> (r: ParquetFileRow) {
    ParquetFileRow {
        run_id: None,
        handler_id: None,
        file_type: None,
        carved_path: None,
        extension: None,
        global_start: None,
        global_end: None,
        size: None,
        md5: None,
        sha256: None,
        validated: None,
        truncated: None,
        error: None,
        pattern_id: None,
        is_duplicate: None,
        duplicate_of_offset: None,
        mime_type: None,
        width: None,
        height: None,
    }
}

/// The carved file of one Parquet row, the `idx`-th of its shard.
pub fn carved_file_from_parquet_row(row: ParquetFileRow, idx: u64) -> (f: CarvedFile)
    ensures
        parquet_carved(f, row, idx),
{
    let errors = errors_of(row.error);
    CarvedFile {
        id: idx,
        run_id: row.run_id,
        file_type: match row.file_type {
            Some(t) => t,
            None => String::new(),
        },
        path: match row.carved_path {
            Some(p) => p,
            None => String::new(),
        },
        extension: row.extension,
        global_start: as_unsigned_exec(row.global_start),
        global_end: as_unsigned_exec(row.global_end),
        size: as_unsigned_exec(row.size),
        handler_id: row.handler_id,
        md5: row.md5,
        sha256: row.sha256,
        validated: row.validated,
        truncated: match row.truncated {
            Some(t) => t,
            None => false,
        },
        errors,
        pattern_id: row.pattern_id,
        is_duplicate: match row.is_duplicate {
            Some(t) => t,
            None => false,
        },
        duplicate_of_offset: opt_unsigned_exec(row.duplicate_of_offset),
        mime_type: row.mime_type,
        width: dimension_exec(row.width),
        height: dimension_exec(row.height),
    }
}

/// The carved files of the rows of one Parquet shard; ids count from 0.
pub fn carved_files_from_parquet(rows: Vec<ParquetFileRow>) -> (r: Vec<CarvedFile>)
    ensures
        r@.len() == rows@.len(),
        forall|i: int| 0 <= i < rows@.len() ==> parquet_carved(#[trigger] r@[i], rows@[i], i as u64),
{
    let ghost all = rows@;
    let mut pending = rows;
    let mut out: Vec<CarvedFile> = Vec::new();
    let n = pending.len();
    for i in 0..n
        invariant
            n == all.len(),
            pending@.len() == n,
            forall|j: int| i <= j < n ==> pending@[j] == all[j],
            out@.len() == i,
            forall|j: int| 0 <= j < i ==> parquet_carved(#[trigger] out@[j], all[j], j as u64),
    {
        let mut row = empty_parquet_row();
        pending.set_and_swap(i, &mut row);
        let f = carved_file_from_parquet_row(row, i as u64);
        out.push(f);
    }
    out
}

/// `a` is the artefact of kind `kind` read from a per-kind Parquet table
/// (`artefacts_urls`, `artefacts_emails`, ...): its value column, start and
/// end offsets; the length is the span from start to end.
pub open spec fn parquet_artefact(
    a: StringArtefact,
    kind: Seq<char>,
    value: Option<Seq<char>>,
    start: Option<i64>,
    end: Option<i64>,
) -> bool {
    &&& a.artefact_kind@ == kind
    &&& a.content@ == or_default(value)
    &&& a.global_start == as_unsigned(start)
    &&& a.global_end == (match end {
        Some(e) => Some(e as u64),
        None => None::<u64>,
    })
    &&& a.length == span(as_unsigned(start), as_unsigned(end))
    &&& a.encoding is None && a.source is None && a.run_id is None
}

/// The artefact of kind `kind` from one row of a per-kind Parquet table.
pub fn artefact_from_parquet(kind: &str, value: Option<String>, start: Option<i64>, end: Option<i64>) -> (a: StringArtefact)
    ensures
        parquet_artefact(a, kind@, opt_view(value), start, end),
{
    let s = as_unsigned_exec(start);
    let e = as_unsigned_exec(end);
    StringArtefact {
        artefact_kind: string_of_str(kind),
        content: match value {
            Some(v) => v,
            None => String::new(),
        },
        global_start: s,
        global_end: match end {
            Some(x) => Some(x as u64),
            None => None,
        },
        length: e.saturating_sub(s),
        encoding: None,
        source: None,
        run_id: None,
    }
}

/// The cells of one row of the `string_artefacts.parquet` table, each `None`
/// when the column is absent or the cell is null.
#[derive(Debug)]
pub struct ParquetArtefactRow {
    pub run_id: Option<String>,
    pub artefact_kind: Option<String>,
    pub content: Option<String>,
    pub global_start: Option<i64>,
    pub global_end: Option<i64>,
    pub length: Option<i64>,
    pub encoding: Option<String>,
    pub source: Option<String>,
}

/// `a` is the artefact of a `string_artefacts.parquet` row: its kind
/// normalised, its content, offsets, and its own length or else the span from
/// start to end.
pub open spec fn parquet_row_artefact(a: StringArtefact, row: ParquetArtefactRow) -> bool {
    let start = as_unsigned(row.global_start);
    let end = opt_unsigned(row.global_end);
    &&& a.artefact_kind@ == normalized_kind(raw_kind(opt_view(row.artefact_kind)))
    &&& a.content@ == or_default(opt_view(row.content))
    &&& a.global_start == start
    &&& a.global_end == end
    &&& a.length == size_or_span(opt_unsigned(row.length), start, end)
    &&& opt_view(a.encoding) == opt_view(row.encoding)
    &&& opt_view(a.source) == opt_view(row.source)
    &&& opt_view(a.run_id) == opt_view(row.run_id)
}

/// The artefact of one row of the `string_artefacts.parquet` table.
pub fn artefact_from_parquet_row(row: ParquetArtefactRow) -> (a: StringArtefact)
    ensures
        parquet_row_artefact(a, row),
{
    let start = as_unsigned_exec(row.global_start);
    let end = opt_unsigned_exec(row.global_end);
    let kind = match &row.artefact_kind {
        Some(k) => normalize_artefact_type(k.as_str()),
        None => normalize_artefact_type("string"),
    };
    proof {
        reveal_strlit("string");
    }
    StringArtefact {
        artefact_kind: kind,
        content: match row.content {
            Some(c) => c,
            None => String::new(),
        },
        global_start: start,
        global_end: end,
        length: size_or_span_exec(opt_unsigned_exec(row.length), start, end),
        encoding: row.encoding,
        source: row.source,
        run_id: row.run_id,
    }
}

/// A per-kind Parquet artefact table: its file under `parquet/`, the kind of
/// its artefacts, and the columns that may hold the value, in order of
/// preference.
#[derive(Debug)]
pub struct ParquetArtefactTable {
    pub file_name: &'static str,
    pub kind: &'static str,
    pub value_columns: Vec<&'static str>,
}

/// The per-kind artefact tables, in the order they are read.
pub open spec fn artefact_tables_spec() -> Seq<(Seq<char>, Seq<char>, Seq<Seq<char>>)> {
    seq![
        ("artefacts_urls.parquet"@, "url"@, seq!["url"@]),
        ("artefacts_emails.parquet"@, "email"@, seq!["email"@]),
        ("artefacts_phones.parquet"@, "phone"@, seq!["phone_e164"@, "phone_raw"@, "phone"@, "number"@]),
        (
            "artefacts_bitlocker_recovery_passwords.parquet"@,
            "bitlocker_recovery_password"@,
            seq!["recovery_password"@, "content"@],
        ),
    ]
}

pub open spec fn table_view(t: ParquetArtefactTable) -> (Seq<char>, Seq<char>, Seq<Seq<char>>) {
    (t.file_name@, t.kind@, str_seq_views(t.value_columns@))
}

fn artefact_table(file_name: &'static str, kind: &'static str, value_columns: Vec<&'static str>) -> (r: ParquetArtefactTable)
    ensures
        table_view(r) == (file_name@, kind@, str_seq_views(value_columns@)),
{
    ParquetArtefactTable { file_name, kind, value_columns }
}

/// The per-kind artefact tables of a Parquet run, in reading order; after
/// them come `string_artefacts.parquet` and then the older `strings.parquet`.
pub fn parquet_artefact_tables() -> (r: Vec<ParquetArtefactTable>)
    ensures
        r@.len() == artefact_tables_spec().len(),
        forall|i: int| 0 <= i < r@.len() ==> table_view(#[trigger] r@[i]) == artefact_tables_spec()[i],
{
    let mut r: Vec<ParquetArtefactTable> = Vec::new();
    r.push(artefact_table("artefacts_urls.parquet", "url", vec!["url"]));
    r.push(artefact_table("artefacts_emails.parquet", "email", vec!["email"]));
    r.push(artefact_table("artefacts_phones.parquet", "phone", vec!["phone_e164", "phone_raw", "phone", "number"]));
    r.push(
        artefact_table(
            "artefacts_bitlocker_recovery_passwords.parquet",
            "bitlocker_recovery_password",
            vec!["recovery_password", "content"],
        ),
    );
    proof {
        assert(str_seq_views(seq!["url"]) =~= seq!["url"@]);
        assert(str_seq_views(seq!["email"]) =~= seq!["email"@]);
        assert(str_seq_views(seq!["phone_e164", "phone_raw", "phone", "number"]) =~= seq![
            "phone_e164"@,
            "phone_raw"@,
            "phone"@,
            "number"@,
        ]);
        assert(str_seq_views(seq!["recovery_password", "content"]) =~= seq!["recovery_password"@, "content"@]);
    }
    r
}

/// The artefact of one row of the older `strings.parquet` table, whose
/// columns are the kind, value, offset and length themselves.
pub fn artefact_from_legacy_parquet(
    kind: Option<String>,
    value: Option<String>,
    offset: Option<u64>,
    length: Option<u64>,
) -> (a: StringArtefact)
    ensures
        a.artefact_kind@ == or_default(opt_view(kind)),
        a.content@ == or_default(opt_view(value)),
        a.global_start == (match offset {
            Some(o) => o,
            None => 0,
        }),
        a.length == (match length {
            Some(l) => l,
            None => 0,
        }),
        a.global_end is None && a.encoding is None && a.source is None && a.run_id is None,
{
    StringArtefact {
        artefact_kind: match kind {
            Some(k) => k,
            None => String::new(),
        },
        content: match value {
            Some(v) => v,
            None => String::new(),
        },
        global_start: match offset {
            Some(o) => o,
            None => 0,
        },
        global_end: None,
        length: match length {
            Some(l) => l,
            None => 0,
        },
        encoding: None,
        source: None,
        run_id: None,
    }
}

// ---------------------------------------------------------------------------
// MetadataReader
// ---------------------------------------------------------------------------

/// Reader for the metadata of one run directory.
#[derive(Debug)]
pub struct MetadataReader {
    run_path: String,
    backend: String,
}

/// Whether a file of a run's `parquet/` directory is a shard of the
/// carved-file table: its name starts with `files_` and its extension is
/// `parquet`.
pub fn is_carved_file_shard(file_name: &str) -> (r: bool)
    ensures
        r == (crate::text::has_prefix(file_name@, "files_"@) && crate::backend::scan::path_extension_of(
            file_name@,
        ) == Some("parquet"@)),
{
    let c = chars_of(file_name);
    if !crate::text::starts_with_str(&c, "files_") {
        return false;
    }
    match crate::backend::scan::path_extension(file_name) {
        Some(e) => {
            let ec = chars_of(e.as_str());
            eq_str(&ec, "parquet")
        },
        None => false,
    }
}

/// What was loaded of the carved-file metadata of a run, per backend.
#[derive(Debug)]
pub enum CarvedSource {
    /// The rows of each `files_*.parquet` shard.
    Parquet(Vec<Vec<ParquetFileRow>>),
    /// The lines of `metadata/carved_files.jsonl`.
    Jsonl(Vec<CarvedLine>),
    /// The text of `metadata/carved_files.csv`.
    Csv(String),
}

/// What was loaded of the string-artefact metadata of a run, per backend.
#[derive(Debug)]
pub enum ArtefactSource {
    /// The artefacts read from the Parquet tables, in table order.
    Parquet(Vec<StringArtefact>),
    /// The lines of the JSON Lines file (none when there is no such file).
    Jsonl(Vec<ArtefactLine>),
    /// The text of `metadata/string_artefacts.csv` (none when there is no such file).
    Csv(Option<String>),
}

pub open spec fn source_backend(s: CarvedSource) -> Seq<char> {
    match s {
        CarvedSource::Parquet(_) => "parquet"@,
        CarvedSource::Jsonl(_) => "jsonl"@,
        CarvedSource::Csv(_) => "csv"@,
    }
}

pub open spec fn artefact_source_backend(s: ArtefactSource) -> Seq<char> {
    match s {
        ArtefactSource::Parquet(_) => "parquet"@,
        ArtefactSource::Jsonl(_) => "jsonl"@,
        ArtefactSource::Csv(_) => "csv"@,
    }
}

/// `files` are the carved files of the Parquet shards in order, each shard's
/// ids counting from 0.
pub open spec fn parquet_shards_ok(shards: Seq<Vec<ParquetFileRow>>, files: Seq<CarvedFile>) -> bool
    decreases shards.len(),
{
    if shards.len() == 0 {
        files.len() == 0
    } else {
        let k = shards.last()@.len() as int;
        let m = files.len() - k;
        &&& m >= 0
        &&& parquet_shards_ok(shards.drop_last(), files.take(m))
        &&& forall|i: int| 0 <= i < k ==> parquet_carved(#[trigger] files[m + i], shards.last()@[i], i as u64)
    }
}

impl MetadataReader {
    pub closed spec fn backend_name(&self) -> Seq<char> {
        self.backend@
    }

    pub closed spec fn run_path_name(&self) -> Seq<char> {
        self.run_path@
    }

    /// A reader for a run whose backend was detected as `backend`; without a
    /// backend the run has no metadata.
    pub fn with_backend(run_path: &str, backend: Option<&str>) -> (r: Result<Self, String>)
        ensures
            match r {
                Ok(m) => backend.is_some() && m.backend_name() == backend.unwrap()@
                    && m.run_path_name() == run_path@,
                Err(e) => backend.is_none() && e@ == "No metadata found in run directory"@,
            },
    {
        match backend {
            Some(b) => Ok(MetadataReader { run_path: string_of_str(run_path), backend: string_of_str(b) }),
            None => Err(string_of_str("No metadata found in run directory")),
        }
    }

    /// Create a reader for a run directory, detecting its backend on disk.
    pub fn new(run_path: &str) -> (r: Result<Self, String>)
        ensures
            match r {
                Ok(m) => m.run_path_name() == run_path@ && (m.backend_name() == "parquet"@
                    || m.backend_name() == "jsonl"@ || m.backend_name() == "csv"@),
                Err(e) => e@ == "No metadata found in run directory"@,
            },
    {
        let b = super::detect_metadata_backend(run_path);
        Self::with_backend(run_path, b)
    }

    /// The metadata backend type.
    pub fn backend(&self) -> (r: &str)
        ensures
            r@ == self.backend_name(),
    {
        self.backend.as_str()
    }

    /// The run directory.
    pub fn run_path(&self) -> (r: &str)
        ensures
            r@ == self.run_path_name(),
    {
        self.run_path.as_str()
    }

    /// The carved files of the run from what was loaded for its backend:
    /// Parquet shards concatenated, JSON Lines or CSV decoded. A source of
    /// another backend than the reader's is refused.
    pub fn read_carved_files(&self, source: CarvedSource) -> (r: Result<Vec<CarvedFile>, String>)
        ensures
            source_backend(source) != self.backend_name() ==> r == Err::<Vec<CarvedFile>, String>(r->Err_0)
                && r->Err_0@ == "Unknown metadata backend: "@ + self.backend_name(),
            source_backend(source) == self.backend_name() ==> match source {
                CarvedSource::Parquet(shards) => r is Ok && parquet_shards_ok(shards@, r->Ok_0@),
                CarvedSource::Jsonl(lines) => match r {
                    Ok(fs) => (forall|j: int| 0 <= j < lines@.len() ==> !carved_line_bad(#[trigger] lines@[j]))
                        && carved_lines_ok(lines@, fs@),
                    Err(e) => exists|j: int|
                        0 <= j < lines@.len() && carved_line_bad(#[trigger] lines@[j]) && (forall|k: int|
                            0 <= k < j ==> !carved_line_bad(#[trigger] lines@[k])) && e@ == row_error(
                            "Failed to parse carved-file metadata row "@,
                            j,
                        ),
                },
                CarvedSource::Csv(text) => match r {
                    Ok(fs) => match csv_table_spec(text@) {
                        Ok((h, rows)) => fs@.len() == rows.len() && forall|i: int|
                            0 <= i < rows.len() ==> csv_carved(#[trigger] fs@[i], row_pairs(h, rows[i]), i as u64),
                        Err(_) => false,
                    },
                    Err(e) => csv_table_spec(text@) == Err::<(Seq<Seq<char>>, Seq<Seq<Seq<char>>>), _>(e@),
                },
            },
    {
        let b = chars_of(self.backend.as_str());
        let matches = match &source {
            CarvedSource::Parquet(_) => eq_str(&b, "parquet"),
            CarvedSource::Jsonl(_) => eq_str(&b, "jsonl"),
            CarvedSource::Csv(_) => eq_str(&b, "csv"),
        };
        if !matches {
            let mut msg = chars_of("Unknown metadata backend: ");
            crate::text::append_str(&mut msg, self.backend.as_str());
            return Err(string_of(&msg));
        }
        match source {
            CarvedSource::Parquet(shards) => {
                let ghost all = shards@;
                let mut pending = shards;
                let mut out: Vec<CarvedFile> = Vec::new();
                let n = pending.len();
                for i in 0..n
                    invariant
                        n == all.len(),
                        pending@.len() == n,
                        forall|j: int| i <= j < n ==> pending@[j] == all[j],
                        parquet_shards_ok(all.take(i as int), out@),
                {
                    let mut shard: Vec<ParquetFileRow> = Vec::new();
                    pending.set_and_swap(i, &mut shard);
                    proof {
                        assert(all.take(i + 1).drop_last() =~= all.take(i as int));
                        assert(all.take(i + 1).last() == shard);
                    }
                    let ghost before = out@;
                    let mut decoded = carved_files_from_parquet(shard);
                    let ghost dec_v = decoded@;
                    out.append(&mut decoded);
                    proof {
                        assert(out@ =~= before + dec_v);
                        assert(out@.take(before.len() as int) =~= before);
                        assert forall|k: int| 0 <= k < dec_v.len() implies parquet_carved(
                            #[trigger] out@[before.len() + k],
                            all[i as int]@[k],
                            k as u64,
                        ) by {
                            assert(out@[before.len() + k] == dec_v[k]);
                        }
                    }
                }
                proof {
                    assert(all.take(n as int) =~= all);
                }
                Ok(out)
            },
            CarvedSource::Jsonl(lines) => carved_files_from_jsonl(lines),
            CarvedSource::Csv(text) => carved_files_from_csv(text.as_str()),
        }
    }

    /// The string artefacts of the run from what was loaded for its backend.
    /// A missing JSON Lines or CSV file gives no artefacts.
    pub fn read_string_artefacts(&self, source: ArtefactSource) -> (r: Result<Vec<StringArtefact>, String>)
        ensures
            artefact_source_backend(source) != self.backend_name() ==> r is Err && r->Err_0@
                == "Unknown metadata backend: "@ + self.backend_name(),
            artefact_source_backend(source) == self.backend_name() ==> match source {
                ArtefactSource::Parquet(v) => r is Ok && r->Ok_0@ == v@,
                ArtefactSource::Jsonl(lines) => match r {
                    Ok(v) => (forall|j: int| 0 <= j < lines@.len() ==> !artefact_line_bad(#[trigger] lines@[j]))
                        && artefact_lines_ok(lines@, v@),
                    Err(e) => exists|j: int|
                        0 <= j < lines@.len() && artefact_line_bad(#[trigger] lines@[j]) && (forall|k: int|
                            0 <= k < j ==> !artefact_line_bad(#[trigger] lines@[k])) && e@ == row_error(
                            "Failed to parse string artefact row "@,
                            j,
                        ),
                },
                ArtefactSource::Csv(None) => r is Ok && r->Ok_0@.len() == 0,
                ArtefactSource::Csv(Some(text)) => match r {
                    Ok(v) => match csv_table_spec(text@) {
                        Ok((h, rows)) => v@.len() == rows.len() && forall|i: int|
                            0 <= i < rows.len() ==> csv_artefact(#[trigger] v@[i], row_pairs(h, rows[i])),
                        Err(_) => false,
                    },
                    Err(e) => csv_table_spec(text@) == Err::<(Seq<Seq<char>>, Seq<Seq<Seq<char>>>), _>(e@),
                },
            },
    {
        let b = chars_of(self.backend.as_str());
        let matches = match &source {
            ArtefactSource::Parquet(_) => eq_str(&b, "parquet"),
            ArtefactSource::Jsonl(_) => eq_str(&b, "jsonl"),
            ArtefactSource::Csv(_) => eq_str(&b, "csv"),
        };
        if !matches {
            let mut msg = chars_of("Unknown metadata backend: ");
            crate::text::append_str(&mut msg, self.backend.as_str());
            return Err(string_of(&msg));
        }
        match source {
            ArtefactSource::Parquet(v) => Ok(v),
            ArtefactSource::Jsonl(lines) => string_artefacts_from_jsonl(lines),
            ArtefactSource::Csv(None) => Ok(Vec::new()),
            ArtefactSource::Csv(Some(text)) => string_artefacts_from_csv(text.as_str()),
        }
    }

    /// Summary of the run's metadata: files by type, total size, artefact count.
    pub fn get_summary(&self, files: &[CarvedFile], strings: &[StringArtefact]) -> (r: Result<MetadataSummary, String>)
        ensures
            match r {
                Ok(s) => {
                    &&& super::types::total_size(files@) <= u64::MAX
                    &&& s.total_files == files@.len()
                    &&& s.total_bytes == super::types::total_size(files@)
                    &&& s.string_artefacts == strings@.len()
                    &&& super::types::counts_by_type(s.by_type@, files@)
                },
                Err(e) => super::types::total_size(files@) > u64::MAX && e@
                    == "Metadata summary total_bytes overflowed"@,
            },
    {
        MetadataSummary::from_results(files, strings)
    }
}

/// Every spelling SwiftBeaver writes for an artefact kind names that kind in
/// its canonical spelling (`Email` and `email` are emails, never URLs), so
/// different kinds never meet; any other text is kept as it is, and
/// normalising twice changes nothing.
pub proof fn lemma_artefact_kind_spellings(raw: Seq<char>)
    ensures
        normalized_kind("Url"@) == "url"@,
        normalized_kind("URL"@) == "url"@,
        normalized_kind("url"@) == "url"@,
        normalized_kind("Email"@) == "email"@,
        normalized_kind("email"@) == "email"@,
        normalized_kind("Phone"@) == "phone"@,
        normalized_kind("phone"@) == "phone"@,
        normalized_kind("BitlockerRecoveryPassword"@) == "bitlocker_recovery_password"@,
        normalized_kind("BitLockerRecoveryPassword"@) == "bitlocker_recovery_password"@,
        normalized_kind("bitlocker_recovery_password"@) == "bitlocker_recovery_password"@,
        normalized_kind("GenericString"@) == "string"@,
        normalized_kind("string"@) == "string"@,
        normalized_kind(raw) == raw || normalized_kind(raw) == "url"@ || normalized_kind(raw) == "email"@
            || normalized_kind(raw) == "phone"@ || normalized_kind(raw) == "bitlocker_recovery_password"@
            || normalized_kind(raw) == "string"@,
        normalized_kind(normalized_kind(raw)) == normalized_kind(raw),
{
    reveal_strlit("Url");
    reveal_strlit("URL");
    reveal_strlit("url");
    reveal_strlit("Email");
    reveal_strlit("email");
    reveal_strlit("Phone");
    reveal_strlit("phone");
    reveal_strlit("BitlockerRecoveryPassword");
    reveal_strlit("BitLockerRecoveryPassword");
    reveal_strlit("bitlocker_recovery_password");
    reveal_strlit("GenericString");
    reveal_strlit("string");
    assert("BitLockerRecoveryPassword"@.len() == 25);
    assert("BitlockerRecoveryPassword"@.len() == 25);
    assert("Email"@.len() == 5);
    assert("GenericString"@.len() == 13);
    assert("Phone"@.len() == 5);
    assert("URL"@.len() == 3);
    assert("Url"@.len() == 3);
    assert("bitlocker_recovery_password"@.len() == 27);
    assert("email"@.len() == 5);
    assert("phone"@.len() == 5);
    assert("string"@.len() == 6);
    assert("url"@.len() == 3);
    assert("BitLockerRecoveryPassword"@[3] != "BitlockerRecoveryPassword"@[3]);
    assert("Email"@[0] != "Phone"@[0]);
    assert("Email"@[0] != "email"@[0]);
    assert("Email"@[0] != "phone"@[0]);
    assert("Phone"@[0] != "email"@[0]);
    assert("Phone"@[0] != "phone"@[0]);
    assert("URL"@[1] != "Url"@[1]);
    assert("URL"@[0] != "url"@[0]);
    assert("Url"@[0] != "url"@[0]);
    assert("email"@[0] != "phone"@[0]);
}

} // verus!
