//! What the command backend reads of the system: graphics cards found under
//! `/sys/class/drm`, described from their `uevent` files.

use vstd::prelude::*;

use super::types::GpuInfo;
use crate::text::{
    append_chars, append_str, chars_of, contains_char, copy_range, has_char, has_prefix,
    starts_with_str, string_of, string_of_str,
};

verus! {

/// Whether a `/sys/class/drm` entry is a graphics card: `cardN`, not one of
/// its connectors (`cardN-HDMI-A-1`).
pub open spec fn is_card_entry(name: Seq<char>) -> bool {
    has_prefix(name, "card"@) && !contains_char(name, '-')
}

/// Whether the entry `name` is a graphics card.
pub fn is_drm_card(name: &str) -> (r: bool)
    ensures
        r == is_card_entry(name@),
{
    let c = chars_of(name);
    starts_with_str(&c, "card") && !has_char(&c, '-')
}

/// Index of the first `\n` of `s`, or its length.
pub open spec fn nl_index(s: Seq<char>) -> nat
    decreases s.len(),
{
    if s.len() == 0 {
        0
    } else if s[0] == '\n' {
        0
    } else {
        1 + nl_index(s.drop_first())
    }
}

/// A line without its trailing `\r`.
pub open spec fn without_cr(line: Seq<char>) -> Seq<char> {
    if line.len() > 0 && line.last() == '\r' {
        line.drop_last()
    } else {
        line
    }
}

/// The lines of a text as `str::lines` gives them: split at `\n`, a trailing
/// `\r` removed from each, and no line after a final `\n`.
pub open spec fn text_lines(s: Seq<char>) -> Seq<Seq<char>>
    decreases s.len(),
{
    if s.len() == 0 {
        seq![]
    } else {
        let i = nl_index(s);
        proof {
            lemma_nl_index_bound(s);
        }
        let rest = if i < s.len() {
            s.skip((i + 1) as int)
        } else {
            Seq::<char>::empty()
        };
        seq![without_cr(s.take(i as int))] + text_lines(rest)
    }
}

proof fn lemma_nl_index(t: Seq<char>, k: int)
    requires
        0 <= k <= t.len(),
        forall|i: int| 0 <= i < k ==> t[i] != '\n',
        k == t.len() || t[k] == '\n',
    ensures
        nl_index(t) == k,
    decreases t.len(),
{
    if t.len() > 0 && k > 0 {
        lemma_nl_index(t.drop_first(), k - 1);
    }
}

pub proof fn lemma_nl_index_bound(t: Seq<char>)
    ensures
        nl_index(t) <= t.len(),
    decreases t.len(),
{
    if t.len() > 0 && t[0] != '\n' {
        lemma_nl_index_bound(t.drop_first());
    }
}

/// The lines of `s`.
pub fn split_lines(s: &[char]) -> (r: Vec<Vec<char>>)
    ensures
        crate::text::views(r@) == text_lines(s@),
{
    let n = s.len();
    let mut out: Vec<Vec<char>> = Vec::new();
    let mut pos: usize = 0;
    assert(s@.skip(0) =~= s@);
    while pos < n
        invariant
            n == s@.len(),
            pos <= n,
            crate::text::views(out@) + text_lines(s@.skip(pos as int)) == text_lines(s@),
        decreases n - pos,
    {
        let mut j: usize = pos;
        while j < n && s[j] != '\n'
            invariant
                pos <= j <= n,
                n == s@.len(),
                forall|i: int| pos <= i < j ==> s@[i] != '\n',
            decreases n - j,
        {
            j = j + 1;
        }
        let mut end = j;
        if end > pos && s[end - 1] == '\r' {
            end = end - 1;
        }
        let line = copy_range(s, pos, end);
        let ghost t = s@.skip(pos as int);
        proof {
            lemma_nl_index(t, j - pos);
            let rest = if j < n {
                t.skip(j - pos + 1)
            } else {
                Seq::<char>::empty()
            };
            assert(t.take(j - pos) =~= s@.subrange(pos as int, j as int));
            assert(line@ == without_cr(t.take(j - pos))) by {
                if j > pos && s@[j - 1] == '\r' {
                    assert(s@.subrange(pos as int, j as int).drop_last() =~= s@.subrange(pos as int, end as int));
                }
            }
            if j < n {
                assert(rest =~= s@.skip(j + 1));
            } else {
                assert(s@.skip(n as int) =~= Seq::<char>::empty());
            }
            assert(text_lines(t) == seq![line@] + text_lines(rest));
        }
        let ghost before = crate::text::views(out@);
        out.push(line);
        proof {
            assert(crate::text::views(out@) =~= before.push(line@));
            let rest = if j < n {
                s@.skip(j + 1)
            } else {
                s@.skip(n as int)
            };
            assert(before + (seq![line@] + text_lines(rest)) =~= before.push(line@) + text_lines(rest));
        }
        if j < n {
            pos = j + 1;
        } else {
            pos = n;
        }
    }
    proof {
        assert(s@.skip(n as int) =~= Seq::<char>::empty());
        assert(crate::text::views(out@) + text_lines(Seq::<char>::empty()) =~= crate::text::views(out@));
    }
    out
}

/// `s` with every leading repetition of `p` removed (`trim_start_matches`).
pub open spec fn strip_all_prefix(s: Seq<char>, p: Seq<char>) -> Seq<char>
    decreases s.len(),
{
    if p.len() > 0 && has_prefix(s, p) {
        strip_all_prefix(s.skip(p.len() as int), p)
    } else {
        s
    }
}

/// The driver named by the last `DRIVER=` line of a `uevent` file.
pub open spec fn uevent_driver(lines: Seq<Seq<char>>) -> Option<Seq<char>>
    decreases lines.len(),
{
    if lines.len() == 0 {
        None
    } else if has_prefix(lines.last(), "DRIVER="@) {
        Some(strip_all_prefix(lines.last(), "DRIVER="@))
    } else {
        uevent_driver(lines.drop_last())
    }
}

/// The vendor a kernel driver belongs to.
pub open spec fn driver_vendor(driver: Option<Seq<char>>) -> Option<Seq<char>> {
    match driver {
        Some(d) => if d == "nvidia"@ {
            Some("NVIDIA"@)
        } else if d == "amdgpu"@ || d == "radeon"@ {
            Some("AMD"@)
        } else if d == "i915"@ || d == "xe"@ {
            Some("Intel"@)
        } else {
            None
        },
        None => None,
    }
}

/// The name shown for a card: `<vendor> GPU (<card>)`, or `GPU <card>` when
/// the vendor is unknown.
pub open spec fn gpu_name(card: Seq<char>, vendor: Option<Seq<char>>) -> Seq<char> {
    match vendor {
        Some(v) => v + " GPU ("@ + card + ")"@,
        None => "GPU "@ + card,
    }
}

fn strip_all_prefix_exec(s: &[char], p: &str) -> (r: Vec<char>)
    ensures
        r@ == strip_all_prefix(s@, p@),
{
    let pv = chars_of(p);
    let m = pv.len();
    let mut start: usize = 0;
    let ghost full = s@;
    assert(full.skip(0) =~= full);
    while m > 0 && m <= s.len() - start && starts_with_str(&copy_range(s, start, s.len()), p)
        invariant
            start <= s@.len(),
            full == s@,
            pv@ == p@,
            m == p@.len(),
            strip_all_prefix(full.skip(start as int), p@) == strip_all_prefix(full, p@),
        decreases s@.len() - start,
    {
        proof {
            let t = full.skip(start as int);
            assert(t.skip(m as int) =~= full.skip(start + m));
        }
        start = start + m;
    }
    let r = copy_range(s, start, s.len());
    proof {
        let t = full.skip(start as int);
        assert(r@ =~= t);
        if m > 0 && has_prefix(t, p@) {
            assert(start + m <= s.len());
        }
    }
    r
}

/// The driver named by the last `DRIVER=` line of a `uevent` text.
pub fn driver_of_uevent(uevent: &str) -> (r: Option<String>)
    ensures
        crate::scan::progress::opt_view(r) == uevent_driver(text_lines(uevent@)),
{
    let c = chars_of(uevent);
    let lines = split_lines(&c);
    let ghost lv = crate::text::views(lines@);
    let mut driver: Option<String> = None;
    let n = lines.len();
    let mut i: usize = 0;
    assert(lv.take(0) =~= Seq::<Seq<char>>::empty());
    while i < n
        invariant
            n == lines@.len(),
            i <= n,
            lv == crate::text::views(lines@),
            crate::scan::progress::opt_view(driver) == uevent_driver(lv.take(i as int)),
        decreases n - i,
    {
        assert(lv.take(i + 1).drop_last() =~= lv.take(i as int));
        assert(lv.take(i + 1).last() == lines@[i as int]@);
        if starts_with_str(&lines[i], "DRIVER=") {
            let v = strip_all_prefix_exec(&lines[i], "DRIVER=");
            driver = Some(string_of(&v));
        }
        i = i + 1;
    }
    assert(lv.take(n as int) =~= lv);
    driver
}

/// The vendor of a driver.
pub fn vendor_of_driver(driver: Option<&str>) -> (r: Option<&'static str>)
    ensures
        match r {
            Some(v) => driver_vendor(match driver {
                Some(d) => Some(d@),
                None => None,
            }) == Some(v@),
            None => driver_vendor(match driver {
                Some(d) => Some(d@),
                None => None,
            }) is None,
        },
{
    match driver {
        Some(d) => {
            let c = chars_of(d);
            if crate::text::eq_str(&c, "nvidia") {
                Some("NVIDIA")
            } else if crate::text::eq_str(&c, "amdgpu") || crate::text::eq_str(&c, "radeon") {
                Some("AMD")
            } else if crate::text::eq_str(&c, "i915") || crate::text::eq_str(&c, "xe") {
                Some("Intel")
            } else {
                None
            }
        },
        None => None,
    }
}

/// Describes the card `card` from the text of its `device/uevent` file: its
/// driver, the vendor of that driver, and a display name.
pub fn gpu_from_uevent(card: &str, uevent: &str) -> (r: GpuInfo)
    ensures
        crate::scan::progress::opt_view(r.driver_version) == uevent_driver(text_lines(uevent@)),
        crate::scan::progress::opt_view(r.vendor) == driver_vendor(uevent_driver(text_lines(uevent@))),
        r.name@ == gpu_name(card@, driver_vendor(uevent_driver(text_lines(uevent@)))),
        r.memory_bytes is None,
        r.backend@ == "Native"@,
{
    let driver = driver_of_uevent(uevent);
    let vendor = match &driver {
        Some(d) => vendor_of_driver(Some(d.as_str())),
        None => vendor_of_driver(None),
    };
    let mut name: Vec<char> = Vec::new();
    match vendor {
        Some(v) => {
            append_str(&mut name, v);
            append_str(&mut name, " GPU (");
            append_str(&mut name, card);
            append_str(&mut name, ")");
        },
        None => {
            append_str(&mut name, "GPU ");
            append_str(&mut name, card);
        },
    }
    GpuInfo {
        name: string_of(&name),
        vendor: match vendor {
            Some(v) => Some(string_of_str(v)),
            None => None,
        },
        driver_version: driver,
        memory_bytes: None,
        backend: string_of_str("Native"),
    }
}

/// The version shown for the engine from the output of its `--version`
/// probe (`None` when it was not found or the probe failed): the trimmed
/// output without a leading `fastcarve `, or `not installed`.
pub open spec fn engine_version_text(output: Option<Seq<char>>) -> Seq<char> {
    match output {
        Some(o) => {
            let t = crate::text::trim(o);
            if has_prefix(t, "fastcarve "@) {
                t.skip(10)
            } else {
                t
            }
        },
        None => "not installed"@,
    }
}

/// The engine version label (see [`engine_version_text`]).
pub fn engine_version_label(output: Option<&str>) -> (r: String)
    ensures
        r@ == engine_version_text(match output {
            Some(o) => Some(o@),
            None => None,
        }),
{
    match output {
        Some(o) => {
            let c = chars_of(o);
            let t = crate::text::trim_ws(&c);
            proof {
                reveal_strlit("fastcarve ");
            }
            if starts_with_str(&t, "fastcarve ") {
                let rest = copy_range(&t, 10, t.len());
                assert(rest@ =~= t@.skip(10));
                string_of(&rest)
            } else {
                string_of(&t)
            }
        },
        None => string_of_str("not installed"),
    }
}

} // verus!
