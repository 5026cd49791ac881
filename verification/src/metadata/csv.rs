//! CSV records as SwiftBeaver writes them: comma-separated fields, double
//! quotes around fields that hold commas, quotes or line breaks, and `""` for
//! a quote inside a quoted field. A record may span several lines while a
//! quoted field is open.

use vstd::prelude::*;

use crate::text::{copy_range, dec, push_dec, string_of, string_views};

verus! {

// ---------------------------------------------------------------------------
// Quote balance
// ---------------------------------------------------------------------------

/// Whether a quoted field is still open after reading `s[i..]` in state `q`
/// (`""` inside quotes is an escaped quote, not a close and reopen).
pub open spec fn quotes_open_from(s: Seq<char>, i: int, q: bool) -> bool
    decreases s.len() - i,
{
    if i >= s.len() {
        q
    } else if s[i] == '"' && q && i + 1 < s.len() && s[i + 1] == '"' {
        quotes_open_from(s, i + 2, q)
    } else if s[i] == '"' {
        quotes_open_from(s, i + 1, !q)
    } else {
        quotes_open_from(s, i + 1, q)
    }
}

/// A record is complete when no quoted field is left open.
pub open spec fn record_complete(s: Seq<char>) -> bool {
    !quotes_open_from(s, 0, false)
}

/// Whether `text` holds a complete record (no quoted field left open).
pub fn csv_record_is_complete(text: &[char]) -> (r: bool)
    ensures
        r == record_complete(text@),
{
    let n = text.len();
    let mut i: usize = 0;
    let mut q = false;
    while i < n
        invariant
            n == text@.len(),
            i <= n,
            quotes_open_from(text@, 0, false) == quotes_open_from(text@, i as int, q),
        decreases n - i,
    {
        if text[i] == '"' && q && i + 1 < n && text[i + 1] == '"' {
            i = i + 2;
        } else if text[i] == '"' {
            q = !q;
            i = i + 1;
        } else {
            i = i + 1;
        }
    }
    !q
}

// ---------------------------------------------------------------------------
// Fields of one record
// ---------------------------------------------------------------------------

/// Reads fields from `s[i..]`, given the fields read so far, the field being
/// read and whether a quote is open. A line break outside quotes ends the
/// record; reaching the end inside quotes is an error (`None`).
pub open spec fn parse_fields_from(
    s: Seq<char>,
    i: int,
    row: Seq<Seq<char>>,
    field: Seq<char>,
    q: bool,
) -> Option<Seq<Seq<char>>>
    decreases s.len() - i,
{
    if i >= s.len() {
        if q {
            None
        } else {
            Some(row.push(field))
        }
    } else {
        let c = s[i];
        if c == '"' && q && i + 1 < s.len() && s[i + 1] == '"' {
            parse_fields_from(s, i + 2, row, field.push('"'), q)
        } else if c == '"' {
            parse_fields_from(s, i + 1, row, field, !q)
        } else if c == ',' && !q {
            parse_fields_from(s, i + 1, row.push(field), Seq::empty(), q)
        } else if (c == '\n' || c == '\r') && !q {
            Some(row.push(field))
        } else {
            parse_fields_from(s, i + 1, row, field.push(c), q)
        }
    }
}

/// The fields of a record, or `None` when a quoted field is not closed.
pub open spec fn parse_csv_fields(s: Seq<char>) -> Option<Seq<Seq<char>>> {
    parse_fields_from(s, 0, Seq::empty(), Seq::empty(), false)
}

proof fn lemma_parse_from_balanced(s: Seq<char>, i: int, row: Seq<Seq<char>>, field: Seq<char>, q: bool)
    requires
        0 <= i,
        !quotes_open_from(s, i, q),
    ensures
        parse_fields_from(s, i, row, field, q) is Some,
    decreases s.len() - i,
{
    if i < s.len() {
        let c = s[i];
        if c == '"' && q && i + 1 < s.len() && s[i + 1] == '"' {
            lemma_parse_from_balanced(s, i + 2, row, field.push('"'), q);
        } else if c == '"' {
            lemma_parse_from_balanced(s, i + 1, row, field, !q);
        } else if c == ',' && !q {
            lemma_parse_from_balanced(s, i + 1, row.push(field), Seq::empty(), q);
        } else if (c == '\n' || c == '\r') && !q {
        } else {
            lemma_parse_from_balanced(s, i + 1, row, field.push(c), q);
        }
    }
}

/// A record whose quoted fields are all closed always yields its fields:
/// the "Unterminated quoted CSV field" error comes only from an open quote.
pub proof fn lemma_complete_record_parses(s: Seq<char>)
    ensures
        record_complete(s) ==> parse_csv_fields(s) is Some,
        parse_csv_fields(s) is None ==> !record_complete(s),
{
    if record_complete(s) {
        lemma_parse_from_balanced(s, 0, Seq::empty(), Seq::empty(), false);
    }
}

pub open spec fn char_rows(v: Seq<Vec<char>>) -> Seq<Seq<char>> {
    v.map_values(|f: Vec<char>| f@)
}

fn parse_fields_exec(text: &[char]) -> (r: Option<Vec<Vec<char>>>)
    ensures
        match r {
            Some(v) => parse_csv_fields(text@) == Some(char_rows(v@)),
            None => parse_csv_fields(text@) == None::<Seq<Seq<char>>>,
        },
{
    let n = text.len();
    let mut row: Vec<Vec<char>> = Vec::new();
    let mut field: Vec<char> = Vec::new();
    let mut i: usize = 0;
    let mut q = false;
    proof {
        assert(char_rows(row@) =~= Seq::<Seq<char>>::empty());
    }
    while i < n
        invariant
            n == text@.len(),
            i <= n,
            parse_csv_fields(text@) == parse_fields_from(text@, i as int, char_rows(row@), field@, q),
        decreases n - i,
    {
        let c = text[i];
        if c == '"' && q && i + 1 < n && text[i + 1] == '"' {
            field.push('"');
            i = i + 2;
        } else if c == '"' {
            q = !q;
            i = i + 1;
        } else if c == ',' && !q {
            let ghost before = char_rows(row@);
            let done = field;
            field = Vec::new();
            row.push(done);
            proof {
                assert(char_rows(row@) =~= before.push(done@));
                assert(field@ =~= Seq::<char>::empty());
            }
            i = i + 1;
        } else if (c == '\n' || c == '\r') && !q {
            let ghost before = char_rows(row@);
            row.push(field);
            proof {
                assert(char_rows(row@) =~= before.push(field@));
            }
            return Some(row);
        } else {
            field.push(c);
            i = i + 1;
        }
    }
    if q {
        None
    } else {
        let ghost before = char_rows(row@);
        row.push(field);
        proof {
            assert(char_rows(row@) =~= before.push(field@));
        }
        Some(row)
    }
}

fn strings_of(v: Vec<Vec<char>>) -> (r: Vec<String>)
    ensures
        string_views(r@) == char_rows(v@),
{
    let mut out: Vec<String> = Vec::new();
    let n = v.len();
    for i in 0..n
        invariant
            n == v@.len(),
            out@.len() == i,
            forall|j: int| 0 <= j < i ==> (#[trigger] out@[j])@ == v@[j]@,
    {
        let s = string_of(&v[i]);
        out.push(s);
    }
    proof {
        assert(string_views(out@) =~= char_rows(v@));
    }
    out
}

/// The fields of one record: a line break outside quotes ends it; a quoted
/// field left open is an error.
pub fn parse_csv_record(text: &[char]) -> (r: Result<Vec<String>, String>)
    ensures
        match r {
            Ok(v) => parse_csv_fields(text@) == Some(string_views(v@)),
            Err(e) => parse_csv_fields(text@) == None::<Seq<Seq<char>>> && e@
                == "Unterminated quoted CSV field"@,
        },
{
    match parse_fields_exec(text) {
        Some(v) => Ok(strings_of(v)),
        None => Err(string_of(&crate::text::chars_of("Unterminated quoted CSV field"))),
    }
}

// ---------------------------------------------------------------------------
// Records of a file
// ---------------------------------------------------------------------------

/// End of the line that starts at `p`: just past its `\n`, or the end of text.
pub open spec fn line_end(t: Seq<char>, p: int) -> int
    decreases t.len() - p,
{
    if p >= t.len() {
        t.len() as int
    } else if t[p] == '\n' {
        p + 1
    } else {
        line_end(t, p + 1)
    }
}

pub proof fn lemma_line_end(t: Seq<char>, p: int)
    requires
        0 <= p,
    ensures
        p < t.len() ==> p < line_end(t, p) <= t.len(),
        p >= t.len() ==> line_end(t, p) == t.len(),
    decreases t.len() - p,
{
    if p < t.len() && t[p] != '\n' {
        lemma_line_end(t, p + 1);
    }
}

/// Where the record that starts at `start` ends, once lines up to `e` have
/// been read: lines are added until no quoted field is open or the text ends.
pub open spec fn record_end_from(t: Seq<char>, start: int, e: int) -> int
    decreases t.len() - e,
{
    if e < 0 || e >= t.len() || record_complete(t.subrange(start, e)) {
        e
    } else {
        proof {
            lemma_line_end(t, e);
        }
        record_end_from(t, start, line_end(t, e))
    }
}

pub open spec fn record_end(t: Seq<char>, start: int) -> int {
    record_end_from(t, start, line_end(t, start))
}

pub proof fn lemma_record_end_from(t: Seq<char>, start: int, e: int)
    requires
        0 <= start < e <= t.len(),
    ensures
        e <= record_end_from(t, start, e) <= t.len(),
    decreases t.len() - e,
{
    if e < t.len() && !record_complete(t.subrange(start, e)) {
        lemma_line_end(t, e);
        lemma_record_end_from(t, start, line_end(t, e));
    }
}

pub proof fn lemma_record_end(t: Seq<char>, start: int)
    requires
        0 <= start < t.len(),
    ensures
        start < record_end(t, start) <= t.len(),
{
    lemma_line_end(t, start);
    lemma_record_end_from(t, start, line_end(t, start));
}

/// The records of `t[pos..]` up to the first one whose quoted field is not
/// closed, and whether there was such a record.
pub open spec fn csv_scan_from(t: Seq<char>, pos: int) -> (Seq<Seq<Seq<char>>>, bool)
    decreases t.len() - pos,
{
    if pos < 0 || pos >= t.len() {
        (Seq::empty(), false)
    } else {
        let e = record_end(t, pos);
        proof {
            lemma_record_end(t, pos);
        }
        match parse_csv_fields(t.subrange(pos, e)) {
            None => (Seq::empty(), true),
            Some(r) => {
                let rest = csv_scan_from(t, e);
                (seq![r] + rest.0, rest.1)
            },
        }
    }
}

pub proof fn lemma_scan_len(t: Seq<char>, pos: int)
    requires
        0 <= pos <= t.len(),
    ensures
        csv_scan_from(t, pos).0.len() + (if csv_scan_from(t, pos).1 { 1int } else { 0int }) <= t.len() - pos,
    decreases t.len() - pos,
{
    if pos < t.len() {
        lemma_record_end(t, pos);
        lemma_scan_len(t, record_end(t, pos));
    }
}

fn line_end_exec(t: &[char], p: usize) -> (r: usize)
    requires
        p <= t@.len(),
    ensures
        r == line_end(t@, p as int),
{
    let n = t.len();
    let mut i = p;
    while i < n && t[i] != '\n'
        invariant
            n == t@.len(),
            p <= i <= n,
            line_end(t@, p as int) == line_end(t@, i as int),
        decreases n - i,
    {
        i = i + 1;
    }
    if i < n {
        i + 1
    } else {
        n
    }
}

fn record_end_exec(t: &[char], start: usize) -> (r: usize)
    requires
        start < t@.len(),
    ensures
        r == record_end(t@, start as int),
{
    let n = t.len();
    let mut e = line_end_exec(t, start);
    proof {
        lemma_line_end(t@, start as int);
    }
    loop
        invariant
            n == t@.len(),
            start < e <= n,
            record_end(t@, start as int) == record_end_from(t@, start as int, e as int),
        decreases n - e,
    {
        if e >= n {
            return e;
        }
        let rec = copy_range(t, start, e);
        if csv_record_is_complete(&rec) {
            return e;
        }
        proof {
            lemma_line_end(t@, e as int);
        }
        e = line_end_exec(t, e);
    }
}

/// The records of a CSV text, and whether reading stopped at a quoted field
/// that is not closed.
pub fn csv_records(text: &[char]) -> (r: (Vec<Vec<String>>, bool))
    ensures
        csv_scan_from(text@, 0) == (r.0@.map_values(|v: Vec<String>| string_views(v@)), r.1),
{
    let n = text.len();
    let mut recs: Vec<Vec<String>> = Vec::new();
    let mut pos: usize = 0;
    while pos < n
        invariant
            n == text@.len(),
            pos <= n,
            csv_scan_from(text@, 0) == ({
                let rest = csv_scan_from(text@, pos as int);
                (recs@.map_values(|v: Vec<String>| string_views(v@)) + rest.0, rest.1)
            }),
        decreases n - pos,
    {
        let e = record_end_exec(text, pos);
        proof {
            lemma_record_end(text@, pos as int);
        }
        let rec = copy_range(text, pos, e);
        match parse_csv_record(&rec) {
            Ok(fields) => {
                let ghost before = recs@.map_values(|v: Vec<String>| string_views(v@));
                recs.push(fields);
                proof {
                    assert(recs@.map_values(|v: Vec<String>| string_views(v@)) =~= before.push(
                        string_views(fields@),
                    ));
                    let rest = csv_scan_from(text@, e as int);
                    assert(before.push(string_views(fields@)) + rest.0 =~= before + (seq![
                        string_views(fields@),
                    ] + rest.0));
                }
                pos = e;
            },
            Err(_) => {
                proof {
                    assert(recs@.map_values(|v: Vec<String>| string_views(v@)) + Seq::empty()
                        =~= recs@.map_values(|v: Vec<String>| string_views(v@)));
                }
                return (recs, true);
            },
        }
    }
    proof {
        assert(recs@.map_values(|v: Vec<String>| string_views(v@)) + Seq::empty()
            =~= recs@.map_values(|v: Vec<String>| string_views(v@)));
    }
    (recs, false)
}

// ---------------------------------------------------------------------------
// Header and rows
// ---------------------------------------------------------------------------

/// A record whose cells are all empty.
pub open spec fn blank_record(r: Seq<Seq<char>>) -> bool {
    forall|i: int| 0 <= i < r.len() ==> (#[trigger] r[i]).len() == 0
}

pub open spec fn not_blank_pred() -> spec_fn(Seq<Seq<char>>) -> bool {
    |r: Seq<Seq<char>>| !blank_record(r)
}

/// A CSV file read as a header and its data rows (blank rows dropped).
#[derive(Debug)]
pub struct CsvTable {
    pub header: Vec<String>,
    pub rows: Vec<Vec<String>>,
}

pub open spec fn table_rows_view(rows: Seq<Vec<String>>) -> Seq<Seq<Seq<char>>> {
    rows.map_values(|v: Vec<String>| string_views(v@))
}

/// The header and rows of a CSV text, or the error reading stops with: a
/// header whose quoted field is not closed, or a later record in that state,
/// named by its row number (the header is row 1, blank rows are not counted).
pub open spec fn csv_table_spec(t: Seq<char>) -> Result<(Seq<Seq<char>>, Seq<Seq<Seq<char>>>), Seq<char>> {
    let (recs, failed) = csv_scan_from(t, 0);
    if recs.len() == 0 {
        if failed {
            Err("Unterminated quoted CSV field"@)
        } else {
            Ok((Seq::empty(), Seq::empty()))
        }
    } else {
        let rows = recs.skip(1).filter(not_blank_pred());
        if failed {
            Err("Failed to parse CSV metadata row "@ + dec(rows.len() + 2) + ": Unterminated quoted CSV field"@)
        } else {
            Ok((recs[0], rows))
        }
    }
}

fn is_blank(r: &Vec<String>) -> (b: bool)
    ensures
        b == blank_record(string_views(r@)),
{
    let mut i: usize = 0;
    while i < r.len()
        invariant
            i <= r@.len(),
            forall|j: int| 0 <= j < i ==> (#[trigger] string_views(r@)[j]).len() == 0,
        decreases r@.len() - i,
    {
        if !r[i].as_str().is_empty() {
            assert(string_views(r@)[i as int] == r@[i as int]@);
            return false;
        }
        i = i + 1;
    }
    true
}

fn non_blank_rows(rows: Vec<Vec<String>>) -> (r: Vec<Vec<String>>)
    ensures
        table_rows_view(r@) == table_rows_view(rows@).filter(not_blank_pred()),
{
    let ghost src = table_rows_view(rows@);
    let mut rest = rows;
    let mut out: Vec<Vec<String>> = Vec::new();
    let ghost mut k: int = 0;
    proof {
        reveal(Seq::filter);
        assert(src.take(0) =~= Seq::<Seq<Seq<char>>>::empty());
        assert(table_rows_view(out@) =~= Seq::<Seq<Seq<char>>>::empty());
        assert(src.skip(0) =~= src);
    }
    while rest.len() > 0
        invariant
            0 <= k <= src.len(),
            table_rows_view(rest@) == src.skip(k),
            table_rows_view(out@) == src.take(k).filter(not_blank_pred()),
        decreases rest@.len(),
    {
        let ghost before = rest@;
        proof {
            assert(table_rows_view(before).len() == before.len());
        }
        let r = rest.remove(0);
        proof {
            assert(before[0] == r);
            assert(string_views(r@) == table_rows_view(before)[0]);
            assert(src[k] == src.skip(k)[0]);
            assert(src.take(k + 1) =~= src.take(k).push(src[k]));
            src.take(k).lemma_filter_push(src[k], not_blank_pred());
            assert(rest@ =~= before.skip(1));
            assert(table_rows_view(rest@) =~= table_rows_view(before).skip(1));
            assert(src.skip(k).skip(1) =~= src.skip(k + 1));
        }
        if !is_blank(&r) {
            let ghost o = table_rows_view(out@);
            out.push(r);
            proof {
                assert(table_rows_view(out@) =~= o.push(string_views(r@)));
            }
        }
        proof {
            k = k + 1;
        }
    }
    proof {
        assert(src.take(k) =~= src);
    }
    out
}

/// Reads a CSV text into its header and non-blank rows.
pub fn csv_table(text: &[char]) -> (r: Result<CsvTable, String>)
    ensures
        match r {
            Ok(tb) => csv_table_spec(text@) == Ok::<_, Seq<char>>(
                (string_views(tb.header@), table_rows_view(tb.rows@)),
            ),
            Err(e) => csv_table_spec(text@) == Err::<(Seq<Seq<char>>, Seq<Seq<Seq<char>>>), _>(e@),
        },
{
    let (recs, failed) = csv_records(text);
    let ghost rv = recs@.map_values(|v: Vec<String>| string_views(v@));
    if recs.len() == 0 {
        if failed {
            return Err(string_of(&crate::text::chars_of("Unterminated quoted CSV field")));
        } else {
            let header: Vec<String> = Vec::new();
            let rows: Vec<Vec<String>> = Vec::new();
            proof {
                assert(string_views(header@) =~= Seq::<Seq<char>>::empty());
                assert(table_rows_view(rows@) =~= Seq::<Seq<Seq<char>>>::empty());
            }
            return Ok(CsvTable { header, rows });
        }
    }
    let mut rest = recs;
    let header = rest.remove(0);
    proof {
        assert(table_rows_view(rest@) =~= rv.skip(1));
    }
    let rows = non_blank_rows(rest);
    proof {
        rv.skip(1).lemma_filter_len(not_blank_pred());
        assert(table_rows_view(rows@).len() == rows@.len());
        lemma_scan_len(text@, 0);
    }
    if failed {
        let mut msg = crate::text::chars_of("Failed to parse CSV metadata row ");
        let count = rows.len();
        let tl = text.len();
        assert(count + 2 <= tl);
        let shown: usize = count + 2;
        push_dec(&mut msg, shown as u64);
        crate::text::append_str(&mut msg, ": Unterminated quoted CSV field");
        return Err(string_of(&msg));
    }
    Ok(CsvTable { header, rows })
}

/// The cells of a row named by the header: each header name with the cell in
/// its column, or an empty cell when the row is short.
pub open spec fn row_pairs(header: Seq<Seq<char>>, row: Seq<Seq<char>>) -> Seq<(Seq<char>, Seq<char>)> {
    Seq::new(
        header.len(),
        |i: int|
            (header[i], if i < row.len() {
                row[i]
            } else {
                Seq::<char>::empty()
            }),
    )
}

/// Pairs each header name with the row's cell in that column.
pub fn row_fields(header: &Vec<String>, row: &Vec<String>) -> (r: Vec<(String, String)>)
    ensures
        crate::metadata::types::pair_views(r@) == row_pairs(string_views(header@), string_views(row@)),
{
    let mut out: Vec<(String, String)> = Vec::new();
    let n = header.len();
    let ghost rp = row_pairs(string_views(header@), string_views(row@));
    for i in 0..n
        invariant
            n == header@.len(),
            rp == row_pairs(string_views(header@), string_views(row@)),
            out@.len() == i,
            forall|j: int| 0 <= j < i ==> ((#[trigger] out@[j]).0@, out@[j].1@) == rp[j],
    {
        let cell = if i < row.len() {
            row[i].clone()
        } else {
            String::new()
        };
        let h = header[i].clone();
        out.push((h, cell));
        proof {
            assert(h@ == string_views(header@)[i as int]);
            assert(i < row@.len() ==> cell@ == string_views(row@)[i as int]);
        }
    }
    proof {
        assert(crate::metadata::types::pair_views(out@) =~= rp);
    }
    out
}

} // verus!
