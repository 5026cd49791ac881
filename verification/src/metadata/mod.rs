//! Metadata of a scan run: the records SwiftBeaver writes (Parquet, JSONL or
//! CSV), how they are decoded, and the summary built from them.

pub mod csv;
pub mod reader;
pub mod types;

use vstd::prelude::*;

use crate::scan::{join_path, join_path_exec, path_exists};

verus! {

/// The backend named by which metadata outputs are present, checked in order:
/// a `parquet` directory, then `metadata/carved_files.jsonl`, then
/// `metadata/carved_files.csv`.
pub open spec fn backend_from_presence(parquet: bool, jsonl: bool, csv: bool) -> Option<Seq<char>> {
    if parquet {
        Some("parquet"@)
    } else if jsonl {
        Some("jsonl"@)
    } else if csv {
        Some("csv"@)
    } else {
        None
    }
}

pub open spec fn opt_str_view(o: Option<&'static str>) -> Option<Seq<char>> {
    match o {
        Some(s) => Some(s@),
        None => None,
    }
}

/// Picks the backend from which outputs exist.
pub fn backend_for_presence(parquet: bool, jsonl: bool, csv: bool) -> (r: Option<&'static str>)
    ensures
        opt_str_view(r) == backend_from_presence(parquet, jsonl, csv),
{
    if parquet {
        Some("parquet")
    } else if jsonl {
        Some("jsonl")
    } else if csv {
        Some("csv")
    } else {
        None
    }
}

/// The paths whose existence decides the backend of a run directory.
pub open spec fn backend_probe_paths(run_path: Seq<char>) -> (Seq<char>, Seq<char>, Seq<char>) {
    (
        join_path(run_path, "parquet"@),
        join_path(join_path(run_path, "metadata"@), "carved_files.jsonl"@),
        join_path(join_path(run_path, "metadata"@), "carved_files.csv"@),
    )
}

/// The three probe paths of a run directory (see [`backend_probe_paths`]).
pub fn metadata_probe_paths(run_path: &str) -> (r: (String, String, String))
    ensures
        (r.0@, r.1@, r.2@) == backend_probe_paths(run_path@),
{
    let parquet_dir = join_path_exec(run_path, "parquet");
    let metadata_dir = join_path_exec(run_path, "metadata");
    let jsonl_path = join_path_exec(metadata_dir.as_str(), "carved_files.jsonl");
    let csv_path = join_path_exec(metadata_dir.as_str(), "carved_files.csv");
    (parquet_dir, jsonl_path, csv_path)
}

/// Detect the metadata backend used in a run directory by probing the paths
/// of [`metadata_probe_paths`] in order. Which paths exist is up to the disk;
/// whatever it says, the answer is the one `backend_from_presence` gives for
/// some existence of the three probe paths.
pub fn detect_metadata_backend(run_path: &str) -> (r: Option<&'static str>)
    ensures
        exists|p: bool, j: bool, c: bool| opt_str_view(r) == backend_from_presence(p, j, c),
{
    let (parquet_dir, jsonl_path, csv_path) = metadata_probe_paths(run_path);
    let p = path_exists(parquet_dir.as_str());
    let j = !p && path_exists(jsonl_path.as_str());
    let c = !p && !j && path_exists(csv_path.as_str());
    backend_for_presence(p, j, c)
}

} // verus!
