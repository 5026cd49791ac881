//! Records of a scan run: carved files, string artefacts, run-level metrics,
//! and the summary shown in the results browser.

use vstd::prelude::*;

use crate::text::{
    chars_of, eq_str, lowercase, parse_u64, parse_u64_spec, seq_less, str_less, string_of, trim,
    trim_ws, unicode_lowercase,
};

verus! {

broadcast use vstd::seq_lib::to_multiset_insert, vstd::seq_lib::to_multiset_build;

/// Carved file metadata.
#[derive(Debug, Clone)]
pub struct CarvedFile {
    /// Lodge-local row ID used for selection/display.
    pub id: u64,
    /// SwiftBeaver run ID.
    pub run_id: Option<String>,
    /// Detected file type.
    pub file_type: String,
    /// Output path relative to the run's carved directory.
    pub path: String,
    /// File extension reported by SwiftBeaver metadata.
    pub extension: Option<String>,
    /// Start offset in source evidence.
    pub global_start: u64,
    /// End offset in source evidence.
    pub global_end: u64,
    /// Size in bytes.
    pub size: u64,
    /// Handler ID used by Parquet file shards.
    pub handler_id: Option<String>,
    /// MD5 hash of the carved file.
    pub md5: Option<String>,
    /// SHA-256 hash of the carved file.
    pub sha256: Option<String>,
    /// Validation result when SwiftBeaver performed post-carving validation.
    pub validated: Option<bool>,
    /// Whether SwiftBeaver truncated the carve.
    pub truncated: bool,
    /// Validation or carve errors reported by SwiftBeaver.
    pub errors: Vec<String>,
    /// Pattern ID that matched this file.
    pub pattern_id: Option<String>,
    /// Whether this record is a duplicate of an earlier carved file.
    pub is_duplicate: bool,
    /// Offset of the original file when this row is a duplicate.
    pub duplicate_of_offset: Option<u64>,
    /// MIME type if detected.
    pub mime_type: Option<String>,
    /// Image width (for images).
    pub width: Option<u32>,
    /// Image height (for images).
    pub height: Option<u32>,
}

/// String artefact (URL, email, phone, generic strings).
#[derive(Debug, Clone)]
pub struct StringArtefact {
    /// Kind: "url", "email", "phone", "bitlocker_recovery_password", "string", ...
    pub artefact_kind: String,
    /// The extracted value.
    pub content: String,
    /// Start offset in source evidence.
    pub global_start: u64,
    /// End offset in source evidence when reported.
    pub global_end: Option<u64>,
    /// Length in bytes when directly reported or derived from `global_end`.
    pub length: u64,
    /// Text encoding when available.
    pub encoding: Option<String>,
    /// Source field/path/chunk identifier when available.
    pub source: Option<String>,
    /// SwiftBeaver run ID.
    pub run_id: Option<String>,
}

// ---------------------------------------------------------------------------
// Keyed rows
// ---------------------------------------------------------------------------

/// The value of the last pair whose key is `k` (a map built by inserting the
/// pairs in order keeps the last value written for each key).
pub open spec fn assoc<V>(s: Seq<(Seq<char>, V)>, k: Seq<char>) -> Option<V>
    decreases s.len(),
{
    if s.len() == 0 {
        None
    } else if s.last().0 == k {
        Some(s.last().1)
    } else {
        assoc(s.drop_last(), k)
    }
}

pub open spec fn pair_views(v: Seq<(String, String)>) -> Seq<(Seq<char>, Seq<char>)> {
    v.map_values(|p: (String, String)| (p.0@, p.1@))
}

/// Keys in strictly increasing order (so each key occurs once).
pub open spec fn keys_sorted<V>(s: Seq<(Seq<char>, V)>) -> bool {
    forall|i: int, j: int| 0 <= i < j < s.len() ==> seq_less(#[trigger] s[i].0, #[trigger] s[j].0)
}

pub proof fn lemma_assoc_absent<V>(s: Seq<(Seq<char>, V)>, k: Seq<char>)
    requires
        forall|i: int| 0 <= i < s.len() ==> (#[trigger] s[i]).0 != k,
    ensures
        assoc(s, k) == None::<V>,
    decreases s.len(),
{
    if s.len() > 0 {
        assert(s[s.len() - 1].0 != k);
        let t = s.drop_last();
        assert forall|i: int| 0 <= i < t.len() implies (#[trigger] t[i]).0 != k by {
            assert(t[i] == s[i]);
        }
        lemma_assoc_absent(t, k);
    }
}

pub proof fn lemma_assoc_last_at<V>(s: Seq<(Seq<char>, V)>, k: Seq<char>, i: int)
    requires
        0 <= i < s.len(),
        s[i].0 == k,
        forall|j: int| i < j < s.len() ==> (#[trigger] s[j]).0 != k,
    ensures
        assoc(s, k) == Some(s[i].1),
    decreases s.len(),
{
    if i < s.len() - 1 {
        assert(s[s.len() - 1].0 != k);
        let t = s.drop_last();
        assert(t[i] == s[i]);
        assert forall|j: int| i < j < t.len() implies (#[trigger] t[j]).0 != k by {
            assert(t[j] == s[j]);
        }
        lemma_assoc_last_at(t, k, i);
    }
}

pub proof fn lemma_assoc_sorted<V>(s: Seq<(Seq<char>, V)>, k: Seq<char>, i: int)
    requires
        keys_sorted(s),
        0 <= i < s.len(),
        s[i].0 == k,
    ensures
        assoc(s, k) == Some(s[i].1),
{
    assert forall|j: int| i < j < s.len() implies (#[trigger] s[j]).0 != k by {
        assert(seq_less(s[i].0, s[j].0));
        crate::text::lemma_seq_less_irreflexive(k);
    }
    lemma_assoc_last_at(s, k, i);
}

/// The value stored for `key` (the last pair with that key).
pub fn lookup_value<'a>(fields: &'a Vec<(String, String)>, key: &str) -> (r: Option<&'a String>)
    ensures
        match r {
            Some(v) => assoc(pair_views(fields@), key@) == Some(v@),
            None => assoc(pair_views(fields@), key@) == None::<Seq<char>>,
        },
{
    let ghost pv = pair_views(fields@);
    let mut i = fields.len();
    while i > 0
        invariant
            i <= fields@.len(),
            pv == pair_views(fields@),
            forall|j: int| i <= j < fields@.len() ==> (#[trigger] pv[j]).0 != key@,
        decreases i,
    {
        let k = chars_of(fields[i - 1].0.as_str());
        if eq_str(&k, key) {
            proof {
                lemma_assoc_last_at(pv, key@, i - 1);
            }
            return Some(&fields[i - 1].1);
        }
        i = i - 1;
    }
    proof {
        lemma_assoc_absent(pv, key@);
    }
    None
}

/// The first of `names` whose value is present and non-empty.
pub fn first_nonempty_field<'a>(fields: &'a Vec<(String, String)>, names: &[&str]) -> (r: Option<&'a str>)
    ensures
        match r {
            Some(v) => first_nonempty(pair_views(fields@), str_seq_views(names@)) == Some(v@),
            None => first_nonempty(pair_views(fields@), str_seq_views(names@)) == None::<Seq<char>>,
        },
{
    let ghost fv = pair_views(fields@);
    let ghost nv = str_seq_views(names@);
    let mut i: usize = 0;
    assert(nv.skip(0) =~= nv);
    while i < names.len()
        invariant
            i <= names@.len(),
            fv == pair_views(fields@),
            nv == str_seq_views(names@),
            first_nonempty(fv, nv) == first_nonempty(fv, nv.skip(i as int)),
        decreases names@.len() - i,
    {
        proof {
            assert(nv.skip(i as int).drop_first() =~= nv.skip(i + 1));
            assert(nv.skip(i as int)[0] == names@[i as int]@);
        }
        match lookup_value(&fields, names[i]) {
            Some(v) => {
                if !v.as_str().is_empty() {
                    return Some(v.as_str());
                }
            },
            None => {},
        }
        i = i + 1;
    }
    proof {
        assert(nv.skip(i as int) =~= Seq::<Seq<char>>::empty());
    }
    None
}

// ---------------------------------------------------------------------------
// MetadataRecord
// ---------------------------------------------------------------------------

/// The first of `names` whose value is present and non-empty.
pub open spec fn first_nonempty(fields: Seq<(Seq<char>, Seq<char>)>, names: Seq<Seq<char>>) -> Option<Seq<char>>
    decreases names.len(),
{
    if names.len() == 0 {
        None
    } else {
        match assoc(fields, names[0]) {
            Some(v) => if v.len() > 0 {
                Some(v)
            } else {
                first_nonempty(fields, names.drop_first())
            },
            None => first_nonempty(fields, names.drop_first()),
        }
    }
}

pub open spec fn str_seq_views(names: Seq<&str>) -> Seq<Seq<char>> {
    names.map_values(|n: &str| n@)
}

/// A flexible metadata table row for artefact outputs whose schemas can evolve:
/// named text fields, kept in key order with one value per key.
#[derive(Debug, Clone)]
pub struct MetadataRecord {
    pub fields: Vec<(String, String)>,
}

impl MetadataRecord {
    pub open spec fn wf(&self) -> bool {
        keys_sorted(pair_views(self.fields@))
    }

    /// The value of a field.
    pub open spec fn value_of(&self, key: Seq<char>) -> Option<Seq<char>> {
        assoc(pair_views(self.fields@), key)
    }

    /// A record of the given fields; where a key occurs more than once, the
    /// later value is kept.
    pub fn new(fields: Vec<(String, String)>) -> (r: Self)
        ensures
            r.wf(),
            forall|k: Seq<char>| #[trigger] r.value_of(k) == assoc(pair_views(fields@), k),
    {
        let mut out: Vec<(String, String)> = Vec::new();
        let ghost src = pair_views(fields@);
        let mut rest = fields;
        let ghost all = rest@;
        let ghost mut n: int = 0;
        while rest.len() > 0
            invariant
                0 <= n <= all.len(),
                rest@ == all.skip(n),
                src == pair_views(all),
                keys_sorted(pair_views(out@)),
                forall|k: Seq<char>| #[trigger] assoc(pair_views(out@), k) == assoc(src.take(n), k),
            decreases rest@.len(),
        {
            let (k, v) = rest.remove(0);
            proof {
                assert(all[n] == (k, v));
                assert(src.take(n + 1).drop_last() =~= src.take(n));
                assert(src.take(n + 1).last() == (k@, v@));
            }
            insert_field(&mut out, k, v);
            proof {
                assert(rest@ =~= all.skip(n + 1));
                n = n + 1;
            }
        }
        proof {
            assert(src.take(n) =~= src);
        }
        MetadataRecord { fields: out }
    }

    /// The first of `names` whose value is present and non-empty.
    pub fn get(&self, names: &[&str]) -> (r: Option<&str>)
        ensures
            match r {
                Some(v) => first_nonempty(pair_views(self.fields@), str_seq_views(names@)) == Some(v@),
                None => first_nonempty(pair_views(self.fields@), str_seq_views(names@)) == None::<Seq<char>>,
            },
    {
        first_nonempty_field(&self.fields, names)
    }

    /// The first present, non-empty field of `names`, trimmed and read as a
    /// `u64`.
    pub fn get_u64(&self, names: &[&str]) -> (r: Option<u64>)
        ensures
            r == (match first_nonempty(pair_views(self.fields@), str_seq_views(names@)) {
                Some(v) => parse_u64_spec(trim(v)),
                None => None,
            }),
    {
        match self.get(names) {
            Some(v) => {
                let c = chars_of(v);
                let t = trim_ws(&c);
                parse_u64(&t)
            },
            None => None,
        }
    }
}

/// The record has a non-empty value for `key`.
pub open spec fn has_nonempty(r: MetadataRecord, key: Seq<char>) -> bool {
    r.value_of(key) matches Some(w) && w.len() > 0
}

/// `get` in words: it gives the value of the first of `names` whose field is
/// present and non-empty, and nothing when no name has such a field.
pub proof fn lemma_get_gives_first_nonempty_field(r: MetadataRecord, names: Seq<Seq<char>>)
    ensures
        match first_nonempty(pair_views(r.fields@), names) {
            Some(v) => exists|i: int|
                0 <= i < names.len() && r.value_of(#[trigger] names[i]) == Some(v) && v.len() > 0
                    && forall|j: int| 0 <= j < i ==> !has_nonempty(r, #[trigger] names[j]),
            None => forall|j: int| 0 <= j < names.len() ==> !has_nonempty(r, #[trigger] names[j]),
        },
    decreases names.len(),
{
    if names.len() > 0 {
        let rest = names.drop_first();
        lemma_get_gives_first_nonempty_field(r, rest);
        if has_nonempty(r, names[0]) {
            let v = r.value_of(names[0]).unwrap();
            assert(first_nonempty(pair_views(r.fields@), names) == Some(v));
            assert(0 <= 0 < names.len() && r.value_of(names[0]) == Some(v) && v.len() > 0);
        } else {
            assert(first_nonempty(pair_views(r.fields@), names) == first_nonempty(pair_views(r.fields@), rest));
            match first_nonempty(pair_views(r.fields@), rest) {
                Some(v) => {
                    let i = choose|i: int|
                        0 <= i < rest.len() && r.value_of(#[trigger] rest[i]) == Some(v) && v.len() > 0
                            && forall|j: int| 0 <= j < i ==> !has_nonempty(r, #[trigger] rest[j]);
                    assert(names[i + 1] == rest[i]);
                    assert forall|j: int| 0 <= j < i + 1 implies !has_nonempty(r, #[trigger] names[j]) by {
                        if j > 0 {
                            assert(names[j] == rest[j - 1]);
                        }
                    }
                },
                None => {
                    assert forall|j: int| 0 <= j < names.len() implies !has_nonempty(r, #[trigger] names[j]) by {
                        if j > 0 {
                            assert(names[j] == rest[j - 1]);
                        }
                    }
                },
            }
        }
    }
}

/// Stores `v` under `k` in a key-ordered field list.
fn insert_field(fields: &mut Vec<(String, String)>, k: String, v: String)
    requires
        keys_sorted(pair_views(old(fields)@)),
    ensures
        keys_sorted(pair_views(final(fields)@)),
        forall|key: Seq<char>| #[trigger] assoc(pair_views(final(fields)@), key) == (if key == k@ {
            Some(v@)
        } else {
            assoc(pair_views(old(fields)@), key)
        }),
{
    let ghost old_pv = pair_views(fields@);
    let kc = chars_of(k.as_str());
    let mut p: usize = 0;
    let mut stop = false;
    while !stop && p < fields.len()
        invariant
            p <= fields@.len(),
            fields@ == old(fields)@,
            old_pv == pair_views(fields@),
            kc@ == k@,
            forall|j: int| 0 <= j < p ==> seq_less(#[trigger] old_pv[j].0, k@),
            stop ==> p < fields@.len() && !seq_less(old_pv[p as int].0, k@),
        decreases fields@.len() - p, if stop { 0int } else { 1int },
    {
        let yc = chars_of(fields[p].0.as_str());
        if str_less(&yc, &kc) {
            p = p + 1;
        } else {
            stop = true;
        }
    }
    let same = if p < fields.len() {
        let yc = chars_of(fields[p].0.as_str());
        crate::text::seq_eq(&yc, &kc)
    } else {
        false
    };
    if same {
        fields.set(p, (k, v));
        proof {
            let new_pv = pair_views(fields@);
            assert(new_pv =~= old_pv.update(p as int, (k@, v@)));
            assert forall|i: int, j: int| 0 <= i < j < new_pv.len() implies seq_less(
                #[trigger] new_pv[i].0,
                #[trigger] new_pv[j].0,
            ) by {
                assert(new_pv[i].0 == old_pv[i].0 && new_pv[j].0 == old_pv[j].0);
            }
            assert forall|key: Seq<char>| #[trigger] assoc(new_pv, key) == (if key == k@ {
                Some(v@)
            } else {
                assoc(old_pv, key)
            }) by {
                if key == k@ {
                    lemma_assoc_sorted(new_pv, key, p as int);
                } else {
                    if exists|i: int| 0 <= i < old_pv.len() && (#[trigger] old_pv[i]).0 == key {
                        let i = choose|i: int| 0 <= i < old_pv.len() && (#[trigger] old_pv[i]).0 == key;
                        lemma_assoc_sorted(old_pv, key, i);
                        lemma_assoc_sorted(new_pv, key, i);
                    } else {
                        lemma_assoc_absent(old_pv, key);
                        assert forall|i: int| 0 <= i < new_pv.len() implies (#[trigger] new_pv[i]).0 != key by {
                            if i != p {
                                assert(new_pv[i] == old_pv[i]);
                            }
                        }
                        lemma_assoc_absent(new_pv, key);
                    }
                }
            }
        }
    } else {
        fields.insert(p, (k, v));
        proof {
            let new_pv = pair_views(fields@);
            assert(new_pv =~= old_pv.insert(p as int, (k@, v@)));
            if p < old_pv.len() {
                crate::text::lemma_seq_less_total(old_pv[p as int].0, k@);
            }
            assert forall|i: int, j: int| 0 <= i < j < new_pv.len() implies seq_less(
                #[trigger] new_pv[i].0,
                #[trigger] new_pv[j].0,
            ) by {
                if j < p {
                    assert(new_pv[i] == old_pv[i] && new_pv[j] == old_pv[j]);
                } else if j == p {
                    assert(new_pv[i] == old_pv[i]);
                } else if i == p {
                    assert(new_pv[j] == old_pv[j - 1]);
                    if j - 1 > p {
                        assert(seq_less(old_pv[p as int].0, old_pv[j - 1].0));
                        crate::text::lemma_seq_less_transitive(k@, old_pv[p as int].0, old_pv[j - 1].0);
                    }
                } else if i < p {
                    assert(new_pv[i] == old_pv[i] && new_pv[j] == old_pv[j - 1]);
                } else {
                    assert(new_pv[i] == old_pv[i - 1] && new_pv[j] == old_pv[j - 1]);
                }
            }
            assert forall|key: Seq<char>| #[trigger] assoc(new_pv, key) == (if key == k@ {
                Some(v@)
            } else {
                assoc(old_pv, key)
            }) by {
                if key == k@ {
                    lemma_assoc_sorted(new_pv, key, p as int);
                } else {
                    if exists|i: int| 0 <= i < old_pv.len() && (#[trigger] old_pv[i]).0 == key {
                        let i = choose|i: int| 0 <= i < old_pv.len() && (#[trigger] old_pv[i]).0 == key;
                        lemma_assoc_sorted(old_pv, key, i);
                        if i < p {
                            lemma_assoc_sorted(new_pv, key, i);
                        } else {
                            assert(new_pv[i + 1] == old_pv[i]);
                            lemma_assoc_sorted(new_pv, key, i + 1);
                        }
                    } else {
                        lemma_assoc_absent(old_pv, key);
                        assert forall|i: int| 0 <= i < new_pv.len() implies (#[trigger] new_pv[i]).0 != key by {
                            if i < p {
                                assert(new_pv[i] == old_pv[i]);
                            } else if i > p {
                                assert(new_pv[i] == old_pv[i - 1]);
                            }
                        }
                        lemma_assoc_absent(new_pv, key);
                    }
                }
            }
        }
    }
}

// ---------------------------------------------------------------------------
// RunSummary
// ---------------------------------------------------------------------------

/// Run-level metrics emitted by SwiftBeaver.
#[derive(Debug, Clone)]
pub struct RunSummary {
    pub bytes_scanned: Option<u64>,
    pub chunks_processed: Option<u64>,
    pub hits: Option<u64>,
    pub files_carved: Option<u64>,
    pub rejected: Option<u64>,
    pub prevalidation_rejected: Option<u64>,
    pub overlap_skipped: Option<u64>,
    pub string_spans: Option<u64>,
    pub artefacts_extracted: Option<u64>,
    pub duplicates_found: Option<u64>,
    pub duplicates_skipped: Option<u64>,
    pub fields: Vec<(String, String)>,
}

/// The first present, non-empty field of `names`, trimmed and read as a `u64`.
pub open spec fn field_u64(f: Seq<(Seq<char>, Seq<char>)>, names: Seq<Seq<char>>) -> Option<u64> {
    match first_nonempty(f, names) {
        Some(v) => parse_u64_spec(trim(v)),
        None => None,
    }
}

impl RunSummary {
    /// Reads the metrics from a run-summary record, each under its current
    /// name or its older aliases; the record's fields are kept.
    pub fn from_record(record: MetadataRecord) -> (r: Self)
        ensures
            ({
                let f = pair_views(record.fields@);
                &&& r.bytes_scanned == field_u64(f, seq!["bytes_scanned"@, "total_bytes_scanned"@])
                &&& r.chunks_processed == field_u64(f, seq!["chunks_processed"@, "chunks"@])
                &&& r.hits == field_u64(f, seq!["hits"@, "total_hits"@])
                &&& r.files_carved == field_u64(f, seq!["files_carved"@, "carved_files"@, "files"@])
                &&& r.rejected == field_u64(f, seq!["rejected"@, "files_rejected"@])
                &&& r.prevalidation_rejected == field_u64(
                    f,
                    seq!["prevalidation_rejected"@, "prevalidated_rejected"@],
                )
                &&& r.overlap_skipped == field_u64(f, seq!["overlap_skipped"@])
                &&& r.string_spans == field_u64(f, seq!["string_spans"@, "strings_found"@])
                &&& r.artefacts_extracted == field_u64(
                    f,
                    seq!["artefacts_extracted"@, "artifacts_extracted"@],
                )
                &&& r.duplicates_found == field_u64(f, seq!["duplicates_found"@])
                &&& r.duplicates_skipped == field_u64(f, seq!["duplicates_skipped"@])
                &&& r.fields@ == record.fields@
            }),
    {
        let names: [&str; 2] = ["bytes_scanned", "total_bytes_scanned"];
        proof { assert(str_seq_views(names@) =~= seq!["bytes_scanned"@, "total_bytes_scanned"@]); }
        let bytes_scanned = record.get_u64(&names);
        let names: [&str; 2] = ["chunks_processed", "chunks"];
        proof { assert(str_seq_views(names@) =~= seq!["chunks_processed"@, "chunks"@]); }
        let chunks_processed = record.get_u64(&names);
        let names: [&str; 2] = ["hits", "total_hits"];
        proof { assert(str_seq_views(names@) =~= seq!["hits"@, "total_hits"@]); }
        let hits = record.get_u64(&names);
        let names: [&str; 3] = ["files_carved", "carved_files", "files"];
        proof { assert(str_seq_views(names@) =~= seq!["files_carved"@, "carved_files"@, "files"@]); }
        let files_carved = record.get_u64(&names);
        let names: [&str; 2] = ["rejected", "files_rejected"];
        proof { assert(str_seq_views(names@) =~= seq!["rejected"@, "files_rejected"@]); }
        let rejected = record.get_u64(&names);
        let names: [&str; 2] = ["prevalidation_rejected", "prevalidated_rejected"];
        proof {
            assert(str_seq_views(names@) =~= seq!["prevalidation_rejected"@, "prevalidated_rejected"@]);
        }
        let prevalidation_rejected = record.get_u64(&names);
        let names: [&str; 1] = ["overlap_skipped"];
        proof { assert(str_seq_views(names@) =~= seq!["overlap_skipped"@]); }
        let overlap_skipped = record.get_u64(&names);
        let names: [&str; 2] = ["string_spans", "strings_found"];
        proof { assert(str_seq_views(names@) =~= seq!["string_spans"@, "strings_found"@]); }
        let string_spans = record.get_u64(&names);
        let names: [&str; 2] = ["artefacts_extracted", "artifacts_extracted"];
        proof {
            assert(str_seq_views(names@) =~= seq!["artefacts_extracted"@, "artifacts_extracted"@]);
        }
        let artefacts_extracted = record.get_u64(&names);
        let names: [&str; 1] = ["duplicates_found"];
        proof { assert(str_seq_views(names@) =~= seq!["duplicates_found"@]); }
        let duplicates_found = record.get_u64(&names);
        let names: [&str; 1] = ["duplicates_skipped"];
        proof { assert(str_seq_views(names@) =~= seq!["duplicates_skipped"@]); }
        let duplicates_skipped = record.get_u64(&names);
        RunSummary {
            bytes_scanned,
            chunks_processed,
            hits,
            files_carved,
            rejected,
            prevalidation_rejected,
            overlap_skipped,
            string_spans,
            artefacts_extracted,
            duplicates_found,
            duplicates_skipped,
            fields: record.fields,
        }
    }
}

// ---------------------------------------------------------------------------
// FileType
// ---------------------------------------------------------------------------

/// File type category for filtering.
#[derive(Debug, Clone, Copy, PartialEq, Eq, Structural, Hash)]
pub enum FileType {
    Image,
    Document,
    Archive,
    Database,
    Media,
    Other,
}

/// The category of an already lower-cased extension.
pub open spec fn file_type_of(lower: Seq<char>) -> FileType {
    if lower == "jpeg"@ || lower == "jpg"@ || lower == "png"@ || lower == "gif"@ || lower == "bmp"@
        || lower == "webp"@ || lower == "ico"@ || lower == "tiff"@ {
        FileType::Image
    } else if lower == "pdf"@ || lower == "doc"@ || lower == "docx"@ || lower == "xls"@ || lower
        == "xlsx"@ || lower == "ppt"@ || lower == "pptx"@ || lower == "txt"@ || lower == "rtf"@ {
        FileType::Document
    } else if lower == "zip"@ || lower == "rar"@ || lower == "7z"@ || lower == "tar"@ || lower
        == "gz"@ || lower == "bz2"@ {
        FileType::Archive
    } else if lower == "sqlite"@ || lower == "db"@ || lower == "mdb"@ {
        FileType::Database
    } else if lower == "mp3"@ || lower == "mp4"@ || lower == "avi"@ || lower == "mkv"@ || lower
        == "wav"@ || lower == "flac"@ || lower == "ogg"@ {
        FileType::Media
    } else {
        FileType::Other
    }
}

pub open spec fn file_type_label(t: FileType) -> Seq<char> {
    match t {
        FileType::Image => "Images"@,
        FileType::Document => "Documents"@,
        FileType::Archive => "Archives"@,
        FileType::Database => "Databases"@,
        FileType::Media => "Media"@,
        FileType::Other => "Other"@,
    }
}

fn eq_any(s: &[char], opts: &[&str]) -> (r: bool)
    ensures
        r == exists|i: int| 0 <= i < opts@.len() && s@ == (#[trigger] opts@[i])@,
{
    let mut i: usize = 0;
    while i < opts.len()
        invariant
            i <= opts@.len(),
            forall|j: int| 0 <= j < i ==> s@ != (#[trigger] opts@[j])@,
        decreases opts@.len() - i,
    {
        if eq_str(s, opts[i]) {
            return true;
        }
        i = i + 1;
    }
    false
}

impl FileType {
    /// The category of an extension already in lower case.
    pub fn from_lowercase(lower: &str) -> (r: FileType)
        ensures
            r == file_type_of(lower@),
    {
        let l = chars_of(lower);
        let images: [&str; 8] = ["jpeg", "jpg", "png", "gif", "bmp", "webp", "ico", "tiff"];
        let documents: [&str; 9] = ["pdf", "doc", "docx", "xls", "xlsx", "ppt", "pptx", "txt", "rtf"];
        let archives: [&str; 6] = ["zip", "rar", "7z", "tar", "gz", "bz2"];
        let databases: [&str; 3] = ["sqlite", "db", "mdb"];
        let media: [&str; 7] = ["mp3", "mp4", "avi", "mkv", "wav", "flac", "ogg"];
        let r = if eq_any(&l, &images) {
            FileType::Image
        } else if eq_any(&l, &documents) {
            FileType::Document
        } else if eq_any(&l, &archives) {
            FileType::Archive
        } else if eq_any(&l, &databases) {
            FileType::Database
        } else if eq_any(&l, &media) {
            FileType::Media
        } else {
            FileType::Other
        };
        proof {
            let s = lower@;
            assert(images@[0]@ == "jpeg"@ && images@[1]@ == "jpg"@ && images@[2]@ == "png"@
                && images@[3]@ == "gif"@ && images@[4]@ == "bmp"@ && images@[5]@ == "webp"@
                && images@[6]@ == "ico"@ && images@[7]@ == "tiff"@);
            assert(documents@[0]@ == "pdf"@ && documents@[1]@ == "doc"@ && documents@[2]@ == "docx"@
                && documents@[3]@ == "xls"@ && documents@[4]@ == "xlsx"@ && documents@[5]@ == "ppt"@
                && documents@[6]@ == "pptx"@ && documents@[7]@ == "txt"@ && documents@[8]@ == "rtf"@);
            assert(archives@[0]@ == "zip"@ && archives@[1]@ == "rar"@ && archives@[2]@ == "7z"@
                && archives@[3]@ == "tar"@ && archives@[4]@ == "gz"@ && archives@[5]@ == "bz2"@);
            assert(databases@[0]@ == "sqlite"@ && databases@[1]@ == "db"@ && databases@[2]@ == "mdb"@);
            assert(media@[0]@ == "mp3"@ && media@[1]@ == "mp4"@ && media@[2]@ == "avi"@
                && media@[3]@ == "mkv"@ && media@[4]@ == "wav"@ && media@[5]@ == "flac"@
                && media@[6]@ == "ogg"@);
        }
        r
    }

    /// The category of a file extension, compared case-insensitively (the
    /// extension is lower-cased with Unicode rules first).
    pub fn from_extension(ext: &str) -> (r: FileType)
        ensures
            r == file_type_of(unicode_lowercase(ext@)),
    {
        let lower = lowercase(ext);
        FileType::from_lowercase(lower.as_str())
    }

    /// Display label of the category.
    pub fn label(&self) -> (r: &'static str)
        ensures
            r@ == file_type_label(*self),
    {
        match self {
            FileType::Image => "Images",
            FileType::Document => "Documents",
            FileType::Archive => "Archives",
            FileType::Database => "Databases",
            FileType::Media => "Media",
            FileType::Other => "Other",
        }
    }
}

// ---------------------------------------------------------------------------
// MetadataSummary
// ---------------------------------------------------------------------------

/// Summary of scan metadata.
#[derive(Debug, Clone)]
pub struct MetadataSummary {
    /// Total carved files.
    pub total_files: usize,
    /// Files by type, each type once, in order of first appearance.
    pub by_type: Vec<(String, usize)>,
    /// Total bytes carved.
    pub total_bytes: u64,
    /// String artefacts count.
    pub string_artefacts: usize,
}

/// Number of files of type `t`.
pub open spec fn count_type(files: Seq<CarvedFile>, t: Seq<char>) -> nat
    decreases files.len(),
{
    if files.len() == 0 {
        0
    } else {
        count_type(files.drop_last(), t) + if files.last().file_type@ == t {
            1nat
        } else {
            0nat
        }
    }
}

/// Total size of the files.
pub open spec fn total_size(files: Seq<CarvedFile>) -> nat
    decreases files.len(),
{
    if files.len() == 0 {
        0
    } else {
        total_size(files.drop_last()) + files.last().size as nat
    }
}

/// The first file of type `t` comes before any file of type `u`.
pub open spec fn first_before(files: Seq<CarvedFile>, t: Seq<char>, u: Seq<char>) -> bool {
    exists|p: int|
        0 <= p < files.len() && (#[trigger] files[p]).file_type@ == t && forall|q: int|
            0 <= q <= p ==> (#[trigger] files[q]).file_type@ != u
}

/// `by` holds each file type of `files` once, with its count, and no other
/// type (every count is above 0), in order of first appearance.
pub open spec fn counts_by_type(by: Seq<(String, usize)>, files: Seq<CarvedFile>) -> bool {
    &&& forall|i: int, j: int| 0 <= i < j < by.len() ==> (#[trigger] by[i]).0@ != (#[trigger] by[j]).0@
    &&& forall|i: int| 0 <= i < by.len() ==> (#[trigger] by[i]).1 == count_type(files, by[i].0@)
    &&& forall|i: int| 0 <= i < by.len() ==> (#[trigger] by[i]).1 > 0
    &&& forall|j: int| 0 <= j < files.len() ==> exists|i: int|
        0 <= i < by.len() && (#[trigger] by[i]).0@ == (#[trigger] files[j]).file_type@
    &&& forall|i: int, j: int|
        0 <= i < j < by.len() ==> first_before(files, (#[trigger] by[i]).0@, (#[trigger] by[j]).0@)
}

proof fn lemma_first_before_extend(pre: Seq<CarvedFile>, post: Seq<CarvedFile>, t: Seq<char>, u: Seq<char>)
    requires
        pre.len() <= post.len(),
        forall|k: int| 0 <= k < pre.len() ==> post[k] == pre[k],
        first_before(pre, t, u),
    ensures
        first_before(post, t, u),
{
    let p = choose|p: int|
        0 <= p < pre.len() && (#[trigger] pre[p]).file_type@ == t && forall|q: int|
            0 <= q <= p ==> (#[trigger] pre[q]).file_type@ != u;
    assert(post[p] == pre[p]);
    assert forall|q: int| 0 <= q <= p implies (#[trigger] post[q]).file_type@ != u by {
        assert(post[q] == pre[q]);
    }
}

proof fn lemma_first_before_asym(files: Seq<CarvedFile>, t: Seq<char>, u: Seq<char>)
    ensures
        !(first_before(files, t, u) && first_before(files, u, t)),
{
    if first_before(files, t, u) && first_before(files, u, t) {
        let p = choose|p: int|
            0 <= p < files.len() && (#[trigger] files[p]).file_type@ == t && forall|q: int|
                0 <= q <= p ==> (#[trigger] files[q]).file_type@ != u;
        let r = choose|r: int|
            0 <= r < files.len() && (#[trigger] files[r]).file_type@ == u && forall|q: int|
                0 <= q <= r ==> (#[trigger] files[q]).file_type@ != t;
        if p <= r {
            assert(files[p].file_type@ != t);
        } else {
            assert(files[r].file_type@ != u);
        }
    }
}

/// Each entry of one by-type list of `files` is an entry of any other.
proof fn lemma_entry_listed(by1: Seq<(String, usize)>, by2: Seq<(String, usize)>, files: Seq<CarvedFile>, i: int) -> (j: int)
    requires
        counts_by_type(by1, files),
        counts_by_type(by2, files),
        0 <= i < by1.len(),
    ensures
        0 <= j < by2.len(),
        by2[j].0@ == by1[i].0@,
{
    let t = by1[i].0@;
    assert(by1[i].1 > 0);
    if forall|p: int| 0 <= p < files.len() ==> (#[trigger] files[p]).file_type@ != t {
        lemma_count_absent(files, t);
    }
    let p = choose|p: int| 0 <= p < files.len() && (#[trigger] files[p]).file_type@ == t;
    choose|j: int| 0 <= j < by2.len() && (#[trigger] by2[j]).0@ == (#[trigger] files[p]).file_type@
}

proof fn lemma_agree_upto(by1: Seq<(String, usize)>, by2: Seq<(String, usize)>, files: Seq<CarvedFile>, k: int)
    requires
        counts_by_type(by1, files),
        counts_by_type(by2, files),
        0 <= k <= by1.len(),
        k <= by2.len(),
    ensures
        forall|i: int| 0 <= i < k ==> (#[trigger] by1[i]).0@ == by2[i].0@,
    decreases k,
{
    if k > 0 {
        lemma_agree_upto(by1, by2, files, k - 1);
        let i = k - 1;
        let t = by1[i].0@;
        let j = lemma_entry_listed(by1, by2, files, i);
        if j < i {
            assert(by1[j].0@ == by2[j].0@);
        } else if j > i {
            let u = by2[i].0@;
            let m = lemma_entry_listed(by2, by1, files, i);
            if m < i {
                assert(by1[m].0@ == by2[m].0@);
            } else {
                assert(m != i);
                assert(first_before(files, by1[i].0@, by1[m].0@));
                assert(first_before(files, by2[i].0@, by2[j].0@));
                lemma_first_before_asym(files, t, u);
            }
        }
    }
}

/// The by-type counts of a list of files are determined by the files: any two
/// lists that count the same files by type (as summaries do) agree entry by
/// entry.
pub proof fn lemma_counts_by_type_unique(by1: Seq<(String, usize)>, by2: Seq<(String, usize)>, files: Seq<CarvedFile>)
    requires
        counts_by_type(by1, files),
        counts_by_type(by2, files),
    ensures
        by1.len() == by2.len(),
        forall|i: int| 0 <= i < by1.len() ==> (#[trigger] by1[i]).0@ == by2[i].0@ && by1[i].1 == by2[i].1,
{
    let n = if by1.len() <= by2.len() {
        by1.len() as int
    } else {
        by2.len() as int
    };
    lemma_agree_upto(by1, by2, files, n);
    if by1.len() > by2.len() {
        let j = lemma_entry_listed(by1, by2, files, n);
        assert(by1[j].0@ == by2[j].0@);
    } else if by2.len() > by1.len() {
        let j = lemma_entry_listed(by2, by1, files, n);
        assert(by1[j].0@ == by2[j].0@);
    }
    assert forall|i: int| 0 <= i < by1.len() implies (#[trigger] by1[i]).0@ == by2[i].0@ && by1[i].1 == by2[i].1 by {
        assert(by1[i].1 == count_type(files, by1[i].0@));
        assert(by2[i].1 == count_type(files, by2[i].0@));
    }
}

pub proof fn lemma_total_size_monotone(files: Seq<CarvedFile>, n: int)
    requires
        0 <= n <= files.len(),
    ensures
        total_size(files.take(n)) <= total_size(files),
    decreases files.len() - n,
{
    if n < files.len() {
        lemma_total_size_monotone(files, n + 1);
        assert(files.take(n + 1).drop_last() =~= files.take(n));
    } else {
        assert(files.take(n) =~= files);
    }
}

/// Counts in non-increasing order.
pub open spec fn counts_descending(s: Seq<(String, usize)>) -> bool {
    forall|i: int, j: int| 0 <= i < j < s.len() ==> s[i].1 >= s[j].1
}

fn insert_by_count(v: &mut Vec<(String, usize)>, x: (String, usize))
    requires
        counts_descending(old(v)@),
    ensures
        counts_descending(final(v)@),
        final(v)@.to_multiset() == old(v)@.to_multiset().insert(x),
{
    let mut p: usize = 0;
    while p < v.len() && v[p].1 >= x.1
        invariant
            p <= v@.len(),
            v@ == old(v)@,
            forall|k: int| 0 <= k < p ==> (#[trigger] v@[k]).1 >= x.1,
        decreases v@.len() - p,
    {
        p = p + 1;
    }
    let ghost old_v = v@;
    v.insert(p, x);
    proof {
        assert forall|i: int, j: int| 0 <= i < j < v@.len() implies v@[i].1 >= v@[j].1 by {
            if j < p {
                assert(v@[i] == old_v[i] && v@[j] == old_v[j]);
            } else if j == p {
                assert(v@[i] == old_v[i]);
            } else if i < p {
                assert(v@[i] == old_v[i] && v@[j] == old_v[j - 1]);
            } else if i == p {
                assert(v@[j] == old_v[j - 1]);
                assert(old_v[p as int].1 < x.1);
                assert(old_v[p as int].1 >= old_v[j - 1].1 || p == j - 1);
            } else {
                assert(v@[i] == old_v[i - 1] && v@[j] == old_v[j - 1]);
            }
        }
    }
}

impl MetadataSummary {
    /// The per-type counts ordered by count, largest first (the order among
    /// equal counts is unspecified), as the overview lists them.
    pub fn types_by_count(&self) -> (r: Vec<(String, usize)>)
        ensures
            counts_descending(r@),
            r@.to_multiset() == self.by_type@.to_multiset(),
    {
        let mut r: Vec<(String, usize)> = Vec::new();
        let n = self.by_type.len();
        let mut i: usize = 0;
        proof {
            assert(r@ =~= self.by_type@.take(0));
        }
        while i < n
            invariant
                n == self.by_type@.len(),
                i <= n,
                counts_descending(r@),
                r@.to_multiset() == self.by_type@.take(i as int).to_multiset(),
            decreases n - i,
        {
            let x = (self.by_type[i].0.clone(), self.by_type[i].1);
            assert(x == self.by_type@[i as int]);
            insert_by_count(&mut r, x);
            assert(self.by_type@.take(i + 1) =~= self.by_type@.take(i as int).push(x));
            i = i + 1;
        }
        assert(self.by_type@.take(n as int) =~= self.by_type@);
        r
    }

    /// Count the files by type and total their sizes; fails when the total
    /// does not fit in a `u64`.
    pub fn from_results(files: &[CarvedFile], strings: &[StringArtefact]) -> (r: Result<Self, String>)
        ensures
            match r {
                Ok(s) => {
                    &&& total_size(files@) <= u64::MAX
                    &&& s.total_files == files@.len()
                    &&& s.total_bytes == total_size(files@)
                    &&& s.string_artefacts == strings@.len()
                    &&& counts_by_type(s.by_type@, files@)
                },
                Err(e) => total_size(files@) > u64::MAX && e@ == "Metadata summary total_bytes overflowed"@,
            },
    {
        let mut by_type: Vec<(String, usize)> = Vec::new();
        let mut total_bytes: u64 = 0;
        let n = files.len();
        for i in 0..n
            invariant
                n == files@.len(),
                total_bytes == total_size(files@.take(i as int)),
                counts_by_type(by_type@, files@.take(i as int)),
                forall|k: int| 0 <= k < by_type@.len() ==> (#[trigger] by_type@[k]).1 <= i,
                forall|k: int| 0 <= k < by_type@.len() ==> exists|p: int|
                    0 <= p < i && (#[trigger] files@[p]).file_type@ == (#[trigger] by_type@[k]).0@,
        {
            let f = &files[i];
            let ghost pre = files@.take(i as int);
            let ghost post = files@.take(i + 1);
            proof {
                assert(post.drop_last() =~= pre);
                assert(post.last() == files@[i as int]);
            }
            match total_bytes.checked_add(f.size) {
                Some(t) => {
                    total_bytes = t;
                },
                None => {
                    proof {
                        lemma_total_size_monotone(files@, i + 1);
                    }
                    return Err(string_of(&chars_of("Metadata summary total_bytes overflowed")));
                },
            }
            let ghost old_by = by_type@;
            let mut k: usize = 0;
            let mut found = false;
            while !found && k < by_type.len()
                invariant
                    k <= by_type@.len(),
                    by_type@ == old_by,
                    forall|m: int| 0 <= m < k ==> (#[trigger] by_type@[m]).0@ != f.file_type@,
                    found ==> k < by_type@.len() && by_type@[k as int].0@ == f.file_type@,
                decreases by_type@.len() - k, if found { 0int } else { 1int },
            {
                if by_type[k].0 == f.file_type {
                    found = true;
                } else {
                    k = k + 1;
                }
            }
            if found {
                let (name, c) = by_type.remove(k);
                by_type.insert(k, (name, c + 1));
                proof {
                    assert(by_type@ =~= old_by.update(k as int, (name, (c + 1) as usize)));
                    assert forall|a: int| 0 <= a < by_type@.len() implies (#[trigger] by_type@[a]).1 == count_type(post, by_type@[a].0@) by {
                        if a != k {
                            assert(by_type@[a] == old_by[a]);
                            assert(old_by[a].0@ != old_by[k as int].0@);
                        }
                    }
                    assert forall|j: int| 0 <= j < post.len() implies exists|a: int|
                        0 <= a < by_type@.len() && (#[trigger] by_type@[a]).0@ == (#[trigger] post[j]).file_type@ by {
                        if j < i {
                            assert(post[j] == pre[j]);
                            let a = choose|a: int| 0 <= a < old_by.len() && (#[trigger] old_by[a]).0@ == (#[trigger] pre[j]).file_type@;
                            assert(by_type@[a].0@ == old_by[a].0@);
                        } else {
                            assert(by_type@[k as int].0@ == post[j].file_type@);
                        }
                    }
                    assert forall|a: int, b: int| 0 <= a < b < by_type@.len() implies first_before(
                        post,
                        (#[trigger] by_type@[a]).0@,
                        (#[trigger] by_type@[b]).0@,
                    ) by {
                        assert(by_type@[a].0@ == old_by[a].0@);
                        assert(by_type@[b].0@ == old_by[b].0@);
                        assert(first_before(pre, old_by[a].0@, old_by[b].0@));
                        lemma_first_before_extend(pre, post, old_by[a].0@, old_by[b].0@);
                    }
                    assert forall|a: int| 0 <= a < by_type@.len() implies exists|p: int|
                        0 <= p < i + 1 && (#[trigger] files@[p]).file_type@ == (#[trigger] by_type@[a]).0@ by {
                        assert(by_type@[a].0@ == old_by[a].0@);
                        assert(old_by[a] == old_by[a]);
                    }
                }
            } else {
                by_type.push((f.file_type.clone(), 1));
                proof {
                    assert forall|a: int| 0 <= a < by_type@.len() implies (#[trigger] by_type@[a]).1 == count_type(post, by_type@[a].0@) by {
                        if a < old_by.len() {
                            assert(by_type@[a] == old_by[a]);
                        } else {
                            assert forall|j: int| 0 <= j < pre.len() implies (#[trigger] pre[j]).file_type@ != f.file_type@ by {
                                let b = choose|b: int| 0 <= b < old_by.len() && (#[trigger] old_by[b]).0@ == (#[trigger] pre[j]).file_type@;
                            }
                            lemma_count_absent(pre, f.file_type@);
                        }
                    }
                    assert forall|j: int| 0 <= j < post.len() implies exists|a: int|
                        0 <= a < by_type@.len() && (#[trigger] by_type@[a]).0@ == (#[trigger] post[j]).file_type@ by {
                        if j < i {
                            assert(post[j] == pre[j]);
                            let a = choose|a: int| 0 <= a < old_by.len() && (#[trigger] old_by[a]).0@ == (#[trigger] pre[j]).file_type@;
                            assert(by_type@[a] == old_by[a]);
                        } else {
                            assert(by_type@[old_by.len() as int].0@ == post[j].file_type@);
                        }
                    }
                    assert forall|j: int| 0 <= j < pre.len() implies (#[trigger] pre[j]).file_type@ != f.file_type@ by {
                        let b = choose|b: int| 0 <= b < old_by.len() && (#[trigger] old_by[b]).0@ == (#[trigger] pre[j]).file_type@;
                    }
                    assert forall|a: int, b: int| 0 <= a < b < by_type@.len() implies first_before(
                        post,
                        (#[trigger] by_type@[a]).0@,
                        (#[trigger] by_type@[b]).0@,
                    ) by {
                        assert(by_type@[a] == old_by[a]);
                        if b < old_by.len() {
                            assert(by_type@[b] == old_by[b]);
                            assert(first_before(pre, old_by[a].0@, old_by[b].0@));
                            lemma_first_before_extend(pre, post, old_by[a].0@, old_by[b].0@);
                        } else {
                            let p = choose|p: int| 0 <= p < i && (#[trigger] files@[p]).file_type@ == old_by[a].0@;
                            assert(post[p] == files@[p]);
                            assert forall|q: int| 0 <= q <= p implies (#[trigger] post[q]).file_type@ != f.file_type@ by {
                                assert(post[q] == pre[q]);
                            }
                        }
                    }
                    assert forall|a: int| 0 <= a < by_type@.len() implies exists|p: int|
                        0 <= p < i + 1 && (#[trigger] files@[p]).file_type@ == (#[trigger] by_type@[a]).0@ by {
                        if a < old_by.len() {
                            assert(by_type@[a] == old_by[a]);
                        } else {
                            assert(files@[i as int].file_type@ == by_type@[a].0@);
                        }
                    }
                }
            }
        }
        proof {
            assert(files@.take(n as int) =~= files@);
        }
        Ok(MetadataSummary { total_files: n, by_type, total_bytes, string_artefacts: strings.len() })
    }

    /// The number of files of `file_type`, if any.
    pub fn count_of(&self, file_type: &str) -> (r: Option<usize>)
        ensures
            match r {
                Some(c) => exists|i: int| 0 <= i < self.by_type@.len() && (#[trigger] self.by_type@[i]).0@ == file_type@ && self.by_type@[i].1 == c,
                None => forall|i: int| 0 <= i < self.by_type@.len() ==> (#[trigger] self.by_type@[i]).0@ != file_type@,
            },
    {
        let mut i: usize = 0;
        while i < self.by_type.len()
            invariant
                i <= self.by_type@.len(),
                forall|j: int| 0 <= j < i ==> (#[trigger] self.by_type@[j]).0@ != file_type@,
            decreases self.by_type@.len() - i,
        {
            let k = chars_of(self.by_type[i].0.as_str());
            if eq_str(&k, file_type) {
                return Some(self.by_type[i].1);
            }
            i = i + 1;
        }
        None
    }
}

pub proof fn lemma_count_absent(files: Seq<CarvedFile>, t: Seq<char>)
    requires
        forall|j: int| 0 <= j < files.len() ==> (#[trigger] files[j]).file_type@ != t,
    ensures
        count_type(files, t) == 0,
    decreases files.len(),
{
    if files.len() > 0 {
        let g = files.drop_last();
        assert forall|j: int| 0 <= j < g.len() implies (#[trigger] g[j]).file_type@ != t by {
            assert(g[j] == files[j]);
        }
        lemma_count_absent(g, t);
        assert(files[files.len() - 1].file_type@ != t);
    }
}

} // verus!
