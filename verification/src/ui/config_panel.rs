//! Configuration panel: presets, hashing rules and validation of a scan
//! configuration before it is started.

use vstd::prelude::*;

use crate::config::{
    any_sha256, catalog_spec, file_type_catalog, flag_issues, hash_algorithms_include_sha256,
    str_views, validate_flag_combinations, ScanConfig,
};
use crate::devices::{whole_disk_pred, BlockDevice, DeviceType};
use crate::scan::path_exists;
use crate::text::{
    ascii_lower_seq, chars_of, eq_ignore_ascii_case, eq_str, string_of_str, string_views,
};

verus! {

// ---------------------------------------------------------------------------
// Presets and hashing
// ---------------------------------------------------------------------------

/// The index of the first catalog category named `category`.
pub open spec fn preset_index(category: Seq<char>, i: int) -> bool {
    0 <= i < catalog_spec().len() && catalog_spec()[i].0 == category && forall|j: int|
        0 <= j < i ==> (#[trigger] catalog_spec()[j]).0 != category
}

/// Replace the selected file types with the catalog entries of `category`;
/// nothing changes when the catalog has no such category.
pub fn set_preset(config: &mut ScanConfig, category: &str)
    ensures
        (exists|i: int| preset_index(category@, i)) ==> *final(config) == (ScanConfig {
            file_types: final(config).file_types,
            ..*old(config)
        }) && exists|i: int| preset_index(category@, i) && string_views(final(config).file_types@) == catalog_spec()[i].1,
        !(exists|i: int| preset_index(category@, i)) ==> *final(config) == *old(config),
{
    let catalog = file_type_catalog();
    let mut i: usize = 0;
    while i < catalog.len()
        invariant
            i <= catalog@.len(),
            catalog@.len() == catalog_spec().len(),
            forall|k: int|
                0 <= k < catalog@.len() ==> (#[trigger] catalog@[k]).name@ == catalog_spec()[k].0
                    && str_views(catalog@[k].types@) == catalog_spec()[k].1,
            forall|j: int| 0 <= j < i ==> (#[trigger] catalog_spec()[j]).0 != category@,
            *config == *old(config),
        decreases catalog@.len() - i,
    {
        let name = chars_of(catalog[i].name);
        if eq_str(&name, category) {
            let types = &catalog[i].types;
            let mut v: Vec<String> = Vec::new();
            let n = types.len();
            for k in 0..n
                invariant
                    n == types@.len(),
                    v@.len() == k,
                    forall|m: int| 0 <= m < k ==> (#[trigger] v@[m])@ == types@[m]@,
            {
                v.push(string_of_str(types[k]));
            }
            proof {
                assert(string_views(v@) =~= str_views(types@));
                assert(preset_index(category@, i as int));
            }
            config.file_types = v;
            return;
        }
        i = i + 1;
    }
    proof {
        assert forall|k: int| !preset_index(category@, k) by {
            if 0 <= k < catalog_spec().len() && catalog_spec()[k].0 == category@ {
                assert(k >= i);
            }
        }
    }
}

/// Whether a configuration tracks duplicates with an explicit hash selection
/// that lacks `sha256`.
pub open spec fn dedupe_lacks_sha256(c: ScanConfig) -> bool {
    c.dedupe && c.hash_algorithms@.len() > 0 && !any_sha256(c.hash_algorithms@)
}

/// Deduplication needs SHA-256: when duplicates are tracked and an explicit
/// hash selection lacks `sha256`, add it. The default selection (empty) is
/// left alone. Afterwards nothing is lacking, so a second call changes nothing.
pub fn ensure_dedupe_hashing(config: &mut ScanConfig)
    ensures
        dedupe_lacks_sha256(*old(config)) ==> *final(config) == (ScanConfig {
            hash_algorithms: final(config).hash_algorithms,
            ..*old(config)
        }) && string_views(final(config).hash_algorithms@) == string_views(old(config).hash_algorithms@).push(
            "sha256"@,
        ),
        !dedupe_lacks_sha256(*old(config)) ==> *final(config) == *old(config),
        !dedupe_lacks_sha256(*final(config)),
{
    if config.dedupe && config.hash_algorithms.len() > 0 && !hash_algorithms_include_sha256(
        &config.hash_algorithms,
    ) {
        let ghost before = config.hash_algorithms@;
        config.hash_algorithms.push(string_of_str("sha256"));
        proof {
            reveal_strlit("sha256");
            assert(ascii_lower_seq("sha256"@) =~= "sha256"@);
            assert(string_views(config.hash_algorithms@) =~= string_views(before).push("sha256"@));
            let k = (config.hash_algorithms@.len() - 1) as int;
            assert(config.hash_algorithms@[k]@ == "sha256"@);
            assert(any_sha256(config.hash_algorithms@));
        }
    }
}

/// Whether the `sha256` checkbox must stay ticked: deduplication is on, the
/// box is the `sha256` one, and another algorithm is selected.
pub open spec fn sha256_locked(c: ScanConfig, algorithm: Seq<char>) -> bool {
    c.dedupe && ascii_lower_seq(algorithm) == "sha256"@ && exists|i: int|
        0 <= i < c.hash_algorithms@.len() && ascii_lower_seq((#[trigger] c.hash_algorithms@[i])@)
            != "sha256"@
}

pub fn sha256_hash_checkbox_locked(config: &ScanConfig, algorithm: &str) -> (r: bool)
    ensures
        r == sha256_locked(*config, algorithm@),
{
    proof {
        reveal_strlit("sha256");
        assert(ascii_lower_seq("sha256"@) =~= "sha256"@);
    }
    if !config.dedupe {
        return false;
    }
    let a = chars_of(algorithm);
    if !eq_ignore_ascii_case(&a, "sha256") {
        return false;
    }
    let mut i: usize = 0;
    while i < config.hash_algorithms.len()
        invariant
            i <= config.hash_algorithms@.len(),
            config.dedupe,
            ascii_lower_seq(algorithm@) == ascii_lower_seq("sha256"@),
            ascii_lower_seq("sha256"@) == "sha256"@,
            forall|j: int| 0 <= j < i ==> ascii_lower_seq((#[trigger] config.hash_algorithms@[j])@) == "sha256"@,
        decreases config.hash_algorithms@.len() - i,
    {
        let h = chars_of(config.hash_algorithms[i].as_str());
        if !eq_ignore_ascii_case(&h, "sha256") {
            assert(ascii_lower_seq((config.hash_algorithms@[i as int])@) != "sha256"@);
            return true;
        }
        i = i + 1;
    }
    false
}

// ---------------------------------------------------------------------------
// Editing a configuration
// ---------------------------------------------------------------------------

/// `hs` without the entries equal to `algo` ignoring ASCII case, in order.
pub open spec fn without_algorithm(hs: Seq<Seq<char>>, algo: Seq<char>) -> Seq<Seq<char>>
    decreases hs.len(),
{
    if hs.len() == 0 {
        seq![]
    } else {
        let rest = without_algorithm(hs.drop_last(), algo);
        if ascii_lower_seq(hs.last()) == ascii_lower_seq(algo) {
            rest
        } else {
            rest.push(hs.last())
        }
    }
}

/// The selection after ticking (`on`) or clearing the box of `algo`: every
/// spelling of it removed, then `algo` appended when ticked.
pub open spec fn toggled_algorithms(hs: Seq<Seq<char>>, algo: Seq<char>, on: bool) -> Seq<Seq<char>> {
    if on {
        without_algorithm(hs, algo).push(algo)
    } else {
        without_algorithm(hs, algo)
    }
}

/// Whether a selection names `sha256`, ignoring ASCII case.
pub open spec fn names_sha256(hs: Seq<Seq<char>>) -> bool {
    exists|i: int| 0 <= i < hs.len() && ascii_lower_seq(#[trigger] hs[i]) == "sha256"@
}

proof fn lemma_any_sha256_views(hs: Seq<String>)
    ensures
        any_sha256(hs) == names_sha256(string_views(hs)),
{
    let v = string_views(hs);
    if any_sha256(hs) {
        let i = choose|i: int| 0 <= i < hs.len() && ascii_lower_seq(#[trigger] hs[i]@) == "sha256"@;
        assert(v[i] == hs[i]@);
    }
    if names_sha256(v) {
        let i = choose|i: int| 0 <= i < v.len() && ascii_lower_seq(#[trigger] v[i]) == "sha256"@;
        assert(v[i] == hs[i]@);
    }
}

/// The selection after a toggle, with `sha256` added back when duplicates are
/// tracked and an explicit selection lacks it.
pub open spec fn hashes_after_toggle(hs: Seq<Seq<char>>, algo: Seq<char>, on: bool, dedupe: bool) -> Seq<Seq<char>> {
    let sel = toggled_algorithms(hs, algo, on);
    if dedupe && sel.len() > 0 && !names_sha256(sel) {
        sel.push("sha256"@)
    } else {
        sel
    }
}

fn toggled_algorithm_list(hs: &Vec<String>, algo: &str, on: bool) -> (r: Vec<String>)
    ensures
        string_views(r@) == toggled_algorithms(string_views(hs@), algo@, on),
{
    let ghost hv = string_views(hs@);
    let mut kept: Vec<String> = Vec::new();
    let n = hs.len();
    let mut i: usize = 0;
    assert(hv.take(0) =~= Seq::<Seq<char>>::empty());
    while i < n
        invariant
            n == hs@.len(),
            i <= n,
            hv == string_views(hs@),
            string_views(kept@) == without_algorithm(hv.take(i as int), algo@),
        decreases n - i,
    {
        let h = chars_of(hs[i].as_str());
        let ghost prev = kept@;
        assert(hv.take(i + 1).drop_last() =~= hv.take(i as int));
        assert(hv.take(i + 1).last() == hs@[i as int]@);
        if !eq_ignore_ascii_case(&h, algo) {
            kept.push(hs[i].clone());
            assert(string_views(kept@) =~= string_views(prev).push(hs@[i as int]@));
        }
        i = i + 1;
    }
    assert(hv.take(n as int) =~= hv);
    if on {
        let ghost prev = kept@;
        kept.push(string_of_str(algo));
        assert(string_views(kept@) =~= string_views(prev).push(algo@));
    }
    kept
}

/// Ticking (`on`) or clearing the hash algorithm `algo`; deduplication keeps
/// `sha256` in an explicit selection.
pub fn set_hash_algorithm(config: &mut ScanConfig, algo: &str, on: bool)
    ensures
        *final(config) == (ScanConfig { hash_algorithms: final(config).hash_algorithms, ..*old(config) }),
        string_views(final(config).hash_algorithms@) == hashes_after_toggle(
            string_views(old(config).hash_algorithms@),
            algo@,
            on,
            old(config).dedupe,
        ),
        !dedupe_lacks_sha256(*final(config)),
{
    let v = toggled_algorithm_list(&config.hash_algorithms, algo, on);
    config.hash_algorithms = v;
    proof {
        lemma_any_sha256_views(config.hash_algorithms@);
    }
    ensure_dedupe_hashing(config);
}

/// `ts` without the entries equal to `t`, in order.
pub open spec fn without_type(ts: Seq<Seq<char>>, t: Seq<char>) -> Seq<Seq<char>>
    decreases ts.len(),
{
    if ts.len() == 0 {
        seq![]
    } else {
        let rest = without_type(ts.drop_last(), t);
        if ts.last() == t {
            rest
        } else {
            rest.push(ts.last())
        }
    }
}

/// The file types after ticking (`on`) or clearing the box of `t`: appended
/// when ticked and absent, every occurrence removed when cleared.
pub open spec fn toggled_types(ts: Seq<Seq<char>>, t: Seq<char>, on: bool) -> Seq<Seq<char>> {
    if on {
        if ts.contains(t) {
            ts
        } else {
            ts.push(t)
        }
    } else {
        without_type(ts, t)
    }
}

fn toggled_type_list(ts: &Vec<String>, file_type: &str, on: bool) -> (r: Vec<String>)
    ensures
        string_views(r@) == toggled_types(string_views(ts@), file_type@, on),
{
    let ghost tv = string_views(ts@);
    let n = ts.len();
    if on {
        let mut found = false;
        let mut i: usize = 0;
        while i < n
            invariant
                n == ts@.len(),
                i <= n,
                tv == string_views(ts@),
                found == exists|j: int| 0 <= j < i && tv[j] == file_type@,
            decreases n - i,
        {
            let t = chars_of(ts[i].as_str());
            assert(tv[i as int] == ts@[i as int]@);
            if eq_str(&t, file_type) {
                found = true;
            }
            i = i + 1;
        }
        let mut r: Vec<String> = Vec::new();
        let mut k: usize = 0;
        while k < n
            invariant
                n == ts@.len(),
                k <= n,
                tv == string_views(ts@),
                string_views(r@) == tv.take(k as int),
            decreases n - k,
        {
            let ghost prev = r@;
            let c = ts[k].clone();
            r.push(c);
            assert(c@ == ts@[k as int]@);
            assert(string_views(r@) =~= string_views(prev).push(ts@[k as int]@));
            assert(tv.take(k + 1) =~= tv.take(k as int).push(tv[k as int]));
            k = k + 1;
        }
        assert(tv.take(n as int) =~= tv);
        if !found {
            let ghost prev = r@;
            r.push(string_of_str(file_type));
            assert(string_views(r@) =~= string_views(prev).push(file_type@));
            assert(!tv.contains(file_type@));
        } else {
            assert(tv.contains(file_type@));
        }
        r
    } else {
        let mut kept: Vec<String> = Vec::new();
        let mut i: usize = 0;
        assert(tv.take(0) =~= Seq::<Seq<char>>::empty());
        while i < n
            invariant
                n == ts@.len(),
                i <= n,
                tv == string_views(ts@),
                string_views(kept@) == without_type(tv.take(i as int), file_type@),
            decreases n - i,
        {
            let t = chars_of(ts[i].as_str());
            let ghost prev = kept@;
            assert(tv.take(i + 1).drop_last() =~= tv.take(i as int));
            assert(tv.take(i + 1).last() == ts@[i as int]@);
            if !eq_str(&t, file_type) {
                kept.push(ts[i].clone());
                assert(string_views(kept@) =~= string_views(prev).push(ts@[i as int]@));
            }
            i = i + 1;
        }
        assert(tv.take(n as int) =~= tv);
        kept
    }
}

/// Ticking (`on`) or clearing the file type `file_type`.
pub fn set_file_type(config: &mut ScanConfig, file_type: &str, on: bool)
    ensures
        *final(config) == (ScanConfig { file_types: final(config).file_types, ..*old(config) }),
        string_views(final(config).file_types@) == toggled_types(
            string_views(old(config).file_types@),
            file_type@,
            on,
        ),
{
    let v = toggled_type_list(&config.file_types, file_type, on);
    config.file_types = v;
}

/// Every file type of the catalog, category after category.
pub open spec fn catalog_types(cat: Seq<(Seq<char>, Seq<Seq<char>>)>) -> Seq<Seq<char>>
    decreases cat.len(),
{
    if cat.len() == 0 {
        seq![]
    } else {
        catalog_types(cat.drop_last()) + cat.last().1
    }
}

/// "Select All": every file type of the catalog, in catalog order.
pub fn select_all_file_types(config: &mut ScanConfig)
    ensures
        *final(config) == (ScanConfig { file_types: final(config).file_types, ..*old(config) }),
        string_views(final(config).file_types@) == catalog_types(catalog_spec()),
{
    let catalog = file_type_catalog();
    let mut all: Vec<String> = Vec::new();
    let mut i: usize = 0;
    assert(catalog_spec().take(0) =~= Seq::<(Seq<char>, Seq<Seq<char>>)>::empty());
    while i < catalog.len()
        invariant
            i <= catalog@.len(),
            catalog@.len() == catalog_spec().len(),
            forall|k: int|
                0 <= k < catalog@.len() ==> (#[trigger] catalog@[k]).name@ == catalog_spec()[k].0
                    && str_views(catalog@[k].types@) == catalog_spec()[k].1,
            string_views(all@) == catalog_types(catalog_spec().take(i as int)),
        decreases catalog@.len() - i,
    {
        let types = &catalog[i].types;
        let ghost base = string_views(all@);
        let m = types.len();
        let mut k: usize = 0;
        assert(str_views(types@).take(0) =~= Seq::<Seq<char>>::empty());
        while k < m
            invariant
                m == types@.len(),
                k <= m,
                string_views(all@) == base + str_views(types@).take(k as int),
            decreases m - k,
        {
            let ghost prev = all@;
            all.push(string_of_str(types[k]));
            assert(string_views(all@) =~= string_views(prev).push(types@[k as int]@));
            assert(str_views(types@).take(k + 1) =~= str_views(types@).take(k as int).push(types@[k as int]@));
            assert(base + str_views(types@).take(k + 1) =~= (base + str_views(types@).take(k as int)).push(types@[k as int]@));
            k = k + 1;
        }
        assert(str_views(types@).take(m as int) =~= str_views(types@));
        assert(catalog_spec().take(i + 1).drop_last() =~= catalog_spec().take(i as int));
        assert(catalog_spec().take(i + 1).last() == catalog_spec()[i as int]);
        i = i + 1;
    }
    assert(catalog_spec().take(catalog@.len() as int) =~= catalog_spec());
    config.file_types = all;
}

// ---------------------------------------------------------------------------
// Validation before a start
// ---------------------------------------------------------------------------

pub open spec fn nonempty_text(o: Option<String>) -> bool {
    match o {
        Some(s) => s@.len() > 0,
        None => false,
    }
}

pub open spec fn issue_if(cond: bool, text: Seq<char>) -> Seq<Seq<char>> {
    if cond {
        seq![text]
    } else {
        Seq::empty()
    }
}

/// The issues of a configuration given what the disk says: whether the input
/// exists, whether the resume checkpoint is a file, and whether the
/// checkpoint's directory is missing.
pub open spec fn config_issue_list(
    c: ScanConfig,
    input_exists: bool,
    resume_is_file: bool,
    checkpoint_dir_missing: bool,
) -> Seq<Seq<char>> {
    (if c.input_path@.len() == 0 {
        seq!["Input file path is required"@]
    } else {
        issue_if(!input_exists, "Input file does not exist"@)
    }) + issue_if(c.output_path@.len() == 0, "Output directory is required"@) + issue_if(
        c.file_types@.len() == 0,
        "At least one file type must be selected"@,
    ) + issue_if(nonempty_text(c.resume_from) && !resume_is_file, "Resume checkpoint file does not exist"@)
        + issue_if(nonempty_text(c.checkpoint_path) && checkpoint_dir_missing, "Checkpoint directory does not exist"@)
}

fn push_issue(v: &mut Vec<String>, text: &str)
    ensures
        string_views(final(v)@) == string_views(old(v)@).push(text@),
{
    let ghost before = v@;
    v.push(string_of_str(text));
    proof {
        assert(string_views(v@) =~= string_views(before).push(text@));
    }
}

/// The issues of a configuration given what the disk says about its paths.
pub fn config_issues(
    config: &ScanConfig,
    input_exists: bool,
    resume_is_file: bool,
    checkpoint_dir_missing: bool,
) -> (r: Vec<String>)
    ensures
        string_views(r@) == config_issue_list(*config, input_exists, resume_is_file, checkpoint_dir_missing),
{
    let mut issues: Vec<String> = Vec::new();
    let ghost s0 = string_views(issues@);
    if config.input_path.as_str().is_empty() {
        push_issue(&mut issues, "Input file path is required");
    } else if !input_exists {
        push_issue(&mut issues, "Input file does not exist");
    }
    let ghost s1 = string_views(issues@);
    if config.output_path.as_str().is_empty() {
        push_issue(&mut issues, "Output directory is required");
    }
    let ghost s2 = string_views(issues@);
    if config.file_types.len() == 0 {
        push_issue(&mut issues, "At least one file type must be selected");
    }
    let ghost s3 = string_views(issues@);
    let resume_set = match &config.resume_from {
        Some(p) => !p.as_str().is_empty(),
        None => false,
    };
    if resume_set && !resume_is_file {
        push_issue(&mut issues, "Resume checkpoint file does not exist");
    }
    let ghost s4 = string_views(issues@);
    let checkpoint_set = match &config.checkpoint_path {
        Some(p) => !p.as_str().is_empty(),
        None => false,
    };
    if checkpoint_set && checkpoint_dir_missing {
        push_issue(&mut issues, "Checkpoint directory does not exist");
    }
    proof {
        assert(s0 =~= Seq::<Seq<char>>::empty());
        let c = *config;
        assert(s1 =~= (if c.input_path@.len() == 0 {
            seq!["Input file path is required"@]
        } else {
            issue_if(!input_exists, "Input file does not exist"@)
        }));
        assert(s2 =~= s1 + issue_if(c.output_path@.len() == 0, "Output directory is required"@));
        assert(s3 =~= s2 + issue_if(c.file_types@.len() == 0, "At least one file type must be selected"@));
        assert(s4 =~= s3 + issue_if(nonempty_text(c.resume_from) && !resume_is_file, "Resume checkpoint file does not exist"@));
        assert(string_views(issues@) =~= s4 + issue_if(nonempty_text(c.checkpoint_path) && checkpoint_dir_missing, "Checkpoint directory does not exist"@));
    }
    issues
}

/// `Path::is_file`: whether a regular file is at `path`. That depends on the
/// disk, so nothing is promised of it.
#[verifier::external_body]
pub(crate) fn path_is_file(path: &str) -> (r: bool) {
    std::path::Path::new(path).is_file()
}

/// What `Path::parent` gives for a path (its last component removed, or
/// `None` for a root or an empty path).
pub uninterp spec fn path_parent_of(p: Seq<char>) -> Option<Seq<char>>;

/// `Path::parent`: the result is the name above applied to the path.
#[verifier::external_body]
fn path_parent(path: &str) -> (r: Option<String>)
    ensures
        match r {
            Some(q) => path_parent_of(path@) == Some(q@),
            None => path_parent_of(path@) is None,
        },
{
    std::path::Path::new(path).parent().map(|q| q.to_string_lossy().into_owned())
}

/// Validate a configuration and return its issues: required fields, paths
/// that must exist (as the disk says), then the flag combination issues.
pub fn validate_config(config: &ScanConfig) -> (r: Vec<String>)
    ensures
        exists|input_exists: bool, resume_is_file: bool, dir_missing: bool, same: bool|
            #![trigger config_issue_list(*config, input_exists, resume_is_file, dir_missing), flag_issues(*config, same)]
            string_views(r@) == config_issue_list(*config, input_exists, resume_is_file, dir_missing)
                + flag_issues(*config, same) && (dir_missing ==> match config.checkpoint_path {
                Some(p) => match path_parent_of(p@) {
                    Some(q) => q.len() > 0,
                    None => false,
                },
                None => false,
            }),
{
    let input_exists = if config.input_path.as_str().is_empty() {
        false
    } else {
        path_exists(config.input_path.as_str())
    };
    let resume_is_file = match &config.resume_from {
        Some(p) => if p.as_str().is_empty() {
            false
        } else {
            path_is_file(p.as_str())
        },
        None => false,
    };
    let dir_missing = match &config.checkpoint_path {
        Some(p) => if p.as_str().is_empty() {
            false
        } else {
            match path_parent(p.as_str()) {
                Some(q) => !q.as_str().is_empty() && !path_exists(q.as_str()),
                None => false,
            }
        },
        None => false,
    };
    let mut issues = config_issues(config, input_exists, resume_is_file, dir_missing);
    let ghost first = string_views(issues@);
    let mut combo = validate_flag_combinations(config);
    let ghost second = string_views(combo@);
    issues.append(&mut combo);
    proof {
        assert(string_views(issues@) =~= first + second);
    }
    issues
}

// ---------------------------------------------------------------------------
// The panel
// ---------------------------------------------------------------------------

/// Input source type.
#[derive(Debug, Clone, Copy, PartialEq, Eq, Structural)]
pub enum InputSource {
    File,
    Device,
}

/// Configuration panel state.
#[derive(Debug)]
pub struct ConfigPanel {
    /// Show advanced options.
    pub show_advanced: bool,
    /// Current input source type.
    pub input_source: InputSource,
    /// Cached list of block devices.
    pub cached_devices: Vec<BlockDevice>,
    /// Whether to show partitions or just whole disks.
    pub show_partitions: bool,
}

pub open spec fn deref_devices(v: Seq<&BlockDevice>) -> Seq<BlockDevice> {
    v.map_values(|d: &BlockDevice| *d)
}

impl ConfigPanel {
    pub fn new() -> (r: Self)
        ensures
            !r.show_advanced && r.input_source == InputSource::File && r.cached_devices@.len() == 0
                && !r.show_partitions,
    {
        ConfigPanel {
            show_advanced: false,
            input_source: InputSource::File,
            cached_devices: Vec::new(),
            show_partitions: false,
        }
    }

    /// Replace the cached device list with a fresh listing.
    pub fn refresh_devices(&mut self, devices: Vec<BlockDevice>)
        ensures
            final(self).cached_devices@ == devices@,
            final(self).show_advanced == old(self).show_advanced,
            final(self).input_source == old(self).input_source,
            final(self).show_partitions == old(self).show_partitions,
    {
        self.cached_devices = devices;
    }

    /// The cached devices offered: all of them when partitions are shown,
    /// else only whole disks, in order.
    pub fn get_filtered_devices(&self) -> (r: Vec<&BlockDevice>)
        ensures
            deref_devices(r@) == if self.show_partitions {
                self.cached_devices@
            } else {
                self.cached_devices@.filter(whole_disk_pred())
            },
    {
        let mut out: Vec<&BlockDevice> = Vec::new();
        let n = self.cached_devices.len();
        let ghost all = self.cached_devices@;
        proof {
            assert(all.take(0) =~= Seq::<BlockDevice>::empty());
            reveal(Seq::filter);
            assert(deref_devices(out@) =~= Seq::<BlockDevice>::empty());
        }
        for i in 0..n
            invariant
                n == all.len(),
                all == self.cached_devices@,
                deref_devices(out@) == if self.show_partitions {
                    all.take(i as int)
                } else {
                    all.take(i as int).filter(whole_disk_pred())
                },
        {
            let d = &self.cached_devices[i];
            proof {
                assert(all.take(i + 1) =~= all.take(i as int).push(all[i as int]));
                all.take(i as int).lemma_filter_push(all[i as int], whole_disk_pred());
            }
            let keep = self.show_partitions || match d.device_type {
                DeviceType::Disk | DeviceType::NVMe | DeviceType::Loop => true,
                _ => false,
            };
            let ghost before = out@;
            if keep {
                out.push(d);
            }
            proof {
                if keep {
                    assert(deref_devices(out@) =~= deref_devices(before).push(*d));
                } else {
                    assert(deref_devices(out@) =~= deref_devices(before));
                }
            }
        }
        proof {
            assert(all.take(n as int) =~= all);
        }
        out
    }
}

impl Default for ConfigPanel {
    fn default() -> (r: Self)
        ensures
            !r.show_advanced && r.input_source == InputSource::File && r.cached_devices@.len() == 0
                && !r.show_partitions,
    {
        ConfigPanel::new()
    }
}


/// The Images preset selects exactly jpeg, png, gif, webp, bmp, tiff, heic and
/// ico, in that order.
pub proof fn lemma_images_preset(i: int)
    requires
        preset_index("Images"@, i),
    ensures
        catalog_spec()[i].1 == seq!["jpeg"@, "png"@, "gif"@, "webp"@, "bmp"@, "tiff"@, "heic"@, "ico"@],
{
    if i > 0 {
        assert(catalog_spec()[0].0 == "Images"@);
    }
}

} // verus!
