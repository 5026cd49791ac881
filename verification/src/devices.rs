//! Block device detection for raw device scanning.

use vstd::prelude::*;

use crate::scan::progress::{fixed_text, push_fixed};
use crate::text::{
    append_str, chars_of, contains_char, dec, eq_str, has_prefix, has_char, is_digit, lead_count,
    push_dec, seq_less, starts_with_str, str_less, string_of, string_of_str, trail_count, trim,
    trim_ws,
};

verus! {

broadcast use vstd::seq_lib::to_multiset_insert, vstd::seq_lib::to_multiset_build;

/// Type of block device.
#[derive(Debug, Clone, Copy, PartialEq, Eq, Structural)]
pub enum DeviceType {
    /// Whole disk (e.g., /dev/sda)
    Disk,
    /// Partition (e.g., /dev/sda1)
    Partition,
    /// Loop device (e.g., /dev/loop0)
    Loop,
    /// NVMe device (e.g., /dev/nvme0n1)
    NVMe,
    /// NVMe partition (e.g., /dev/nvme0n1p1)
    NVMePartition,
    /// Other/unknown
    Other,
}

/// Information about a block device.
#[derive(Debug, Clone)]
pub struct BlockDevice {
    /// Device path (e.g., /dev/sda)
    pub path: String,
    /// Device name (e.g., sda)
    pub name: String,
    /// Size in bytes
    pub size: u64,
    /// Human-readable size
    pub size_display: String,
    /// Device model/description if available
    pub model: Option<String>,
    /// Whether this is a removable device
    pub removable: bool,
    /// Device type (disk, partition, etc.)
    pub device_type: DeviceType,
}

pub open spec fn display_text(d: BlockDevice) -> Seq<char> {
    d.name@ + " - "@ + (match d.model {
        Some(m) => m@,
        None => "Unknown"@,
    }) + " ("@ + d.size_display@ + ")"@
}

impl BlockDevice {
    /// Display string for UI: `name - model (size)`.
    pub fn display_name(&self) -> (r: String)
        ensures
            r@ == display_text(*self),
    {
        let mut out = chars_of(self.name.as_str());
        append_str(&mut out, " - ");
        match &self.model {
            Some(m) => append_str(&mut out, m.as_str()),
            None => append_str(&mut out, "Unknown"),
        }
        append_str(&mut out, " (");
        append_str(&mut out, self.size_display.as_str());
        append_str(&mut out, ")");
        string_of(&out)
    }
}

pub open spec fn size_text(bytes: u64) -> Seq<char> {
    if bytes >= 1099511627776 {
        fixed_text(bytes as nat, 1099511627776, 10) + " TB"@
    } else if bytes >= 1073741824 {
        fixed_text(bytes as nat, 1073741824, 10) + " GB"@
    } else if bytes >= 1048576 {
        fixed_text(bytes as nat, 1048576, 10) + " MB"@
    } else if bytes >= 1024 {
        fixed_text(bytes as nat, 1024, 10) + " KB"@
    } else {
        dec(bytes as nat) + " B"@
    }
}

/// Format bytes to a human-readable string with one decimal from 1 KB on.
pub fn format_size(bytes: u64) -> (r: String)
    ensures
        r@ == size_text(bytes),
{
    let mut out: Vec<char> = Vec::new();
    if bytes >= 1099511627776 {
        push_fixed(&mut out, bytes, 1099511627776, 10);
        append_str(&mut out, " TB");
    } else if bytes >= 1073741824 {
        push_fixed(&mut out, bytes, 1073741824, 10);
        append_str(&mut out, " GB");
    } else if bytes >= 1048576 {
        push_fixed(&mut out, bytes, 1048576, 10);
        append_str(&mut out, " MB");
    } else if bytes >= 1024 {
        push_fixed(&mut out, bytes, 1024, 10);
        append_str(&mut out, " KB");
    } else {
        push_dec(&mut out, bytes);
        append_str(&mut out, " B");
    }
    string_of(&out)
}

pub open spec fn not_p_pred() -> spec_fn(char) -> bool {
    |c: char| c != 'p'
}

pub open spec fn ends_with_digit(s: Seq<char>) -> bool {
    s.len() > 0 && is_digit(s.last())
}

/// The type of a device from its kernel name.
pub open spec fn device_type_of(name: Seq<char>) -> DeviceType {
    if has_prefix(name, "nvme"@) {
        let tail = name.skip(name.len() - trail_count(name, not_p_pred()));
        if contains_char(name, 'p') && ends_with_digit(name) && crate::text::all_digits(tail) {
            DeviceType::NVMePartition
        } else {
            DeviceType::NVMe
        }
    } else if has_prefix(name, "loop"@) {
        DeviceType::Loop
    } else if has_prefix(name, "sd"@) || has_prefix(name, "hd"@) || has_prefix(name, "vd"@) {
        if ends_with_digit(name) {
            DeviceType::Partition
        } else {
            DeviceType::Disk
        }
    } else {
        DeviceType::Other
    }
}

/// Detect block device type from name.
pub fn detect_device_type(name: &str) -> (r: DeviceType)
    ensures
        r == device_type_of(name@),
{
    let n = chars_of(name);
    let len = n.len();
    let ends_digit = len > 0 && '0' <= n[len - 1] && n[len - 1] <= '9';
    if starts_with_str(&n, "nvme") {
        if has_char(&n, 'p') && ends_digit {
            let mut k: usize = len;
            while k > 0 && n[k - 1] != 'p'
                invariant
                    k <= len,
                    len == n@.len(),
                    forall|j: int| k <= j < len ==> n@[j] != 'p',
                decreases k,
            {
                k = k - 1;
            }
            proof {
                assert forall|j: int| n@.len() - (len - k) <= j < n@.len() implies #[trigger] not_p_pred()(
                    n@[j],
                ) by {}
                crate::text::lemma_trail_count_is(n@, not_p_pred(), (len - k) as int);
            }
            let tail = crate::text::copy_range(&n, k, len);
            assert(tail@ =~= n@.skip(k as int));
            if crate::text::all_digits_exec(&tail) {
                return DeviceType::NVMePartition;
            }
        }
        DeviceType::NVMe
    } else if starts_with_str(&n, "loop") {
        DeviceType::Loop
    } else if starts_with_str(&n, "sd") || starts_with_str(&n, "hd") || starts_with_str(&n, "vd") {
        if ends_digit {
            DeviceType::Partition
        } else {
            DeviceType::Disk
        }
    } else {
        DeviceType::Other
    }
}

/// Check if a path looks like a block device.
pub fn is_block_device_path(path: &str) -> (r: bool)
    ensures
        r == has_prefix(path@, "/dev/"@),
{
    let p = chars_of(path);
    starts_with_str(&p, "/dev/")
}

// ---------------------------------------------------------------------------
// Building the device list from what the system reports
// ---------------------------------------------------------------------------

/// What the system reports for one entry of `/sys/block`: the kernel name,
/// whether `/dev/<name>` exists, and the text of the `size`, `removable`,
/// `device/model` and `device/vendor` attributes (when readable).
#[derive(Debug, Clone)]
pub struct RawBlockDevice {
    pub name: String,
    pub dev_node_exists: bool,
    pub size_text: Option<String>,
    pub removable_text: Option<String>,
    pub model_text: Option<String>,
    pub vendor_text: Option<String>,
}

/// Size in bytes from the sector count in a `size` attribute (512-byte sectors,
/// wrapping on overflow); 0 when absent or unparsable.
pub open spec fn size_bytes(t: Option<String>) -> u64 {
    match t {
        Some(s) => match crate::text::parse_u64_spec(trim(s@)) {
            Some(sectors) => ((sectors as nat * 512) % 0x1_0000_0000_0000_0000) as u64,
            None => 0,
        },
        None => 0,
    }
}

pub open spec fn trimmed_nonempty(t: Option<String>) -> Option<Seq<char>> {
    match t {
        Some(s) => if trim(s@).len() > 0 {
            Some(trim(s@))
        } else {
            None
        },
        None => None,
    }
}

/// Whether an entry is listed: not a RAM disk, with a device node and a non-zero size.
pub open spec fn is_listed(e: RawBlockDevice) -> bool {
    !has_prefix(e.name@, "ram"@) && !has_prefix(e.name@, "zram"@) && e.dev_node_exists
        && size_bytes(e.size_text) != 0
}

/// The device described by a listed entry.
#[verifier::opaque]
pub open spec fn describes(d: BlockDevice, e: RawBlockDevice) -> bool {
    &&& d.name@ == e.name@
    &&& d.path@ == "/dev/"@ + e.name@
    &&& d.size == size_bytes(e.size_text)
    &&& d.size_display@ == size_text(d.size)
    &&& d.removable == (match e.removable_text {
        Some(t) => trim(t@) == "1"@,
        None => false,
    })
    &&& opt_seq(d.model) == (match trimmed_nonempty(e.model_text) {
        Some(m) => Some(m),
        None => trimmed_nonempty(e.vendor_text),
    })
    &&& d.device_type == device_type_of(e.name@)
}

pub open spec fn opt_seq(o: Option<String>) -> Option<Seq<char>> {
    match o {
        Some(s) => Some(s@),
        None => None,
    }
}

pub open spec fn sorted_by_name(s: Seq<BlockDevice>) -> bool {
    forall|i: int, j: int| 0 <= i < j < s.len() ==> !seq_less(s[j].name@, s[i].name@)
}

/// The position at which `x` enters `s` in a stable insertion sort: after every
/// element whose name is not greater than `x`'s.
pub open spec fn insertion_point(s: Seq<BlockDevice>, x: BlockDevice, p: int) -> bool {
    &&& 0 <= p <= s.len()
    &&& forall|k: int| 0 <= k < p ==> !seq_less(x.name@, #[trigger] s[k].name@)
    &&& p < s.len() ==> seq_less(x.name@, s[p].name@)
}

fn insert_sorted(v: &mut Vec<BlockDevice>, x: BlockDevice)
    requires
        sorted_by_name(old(v)@),
    ensures
        sorted_by_name(final(v)@),
        final(v)@.to_multiset() == old(v)@.to_multiset().insert(x),
        exists|p: int| insertion_point(old(v)@, x, p) && final(v)@ == old(v)@.insert(p, x),
{
    let xn = chars_of(x.name.as_str());
    let mut p: usize = 0;
    let mut found = false;
    while !found && p < v.len()
        invariant
            p <= v@.len(),
            v@ == old(v)@,
            xn@ == x.name@,
            forall|k: int| 0 <= k < p ==> !seq_less(x.name@, #[trigger] v@[k].name@),
            found ==> p < v@.len() && seq_less(x.name@, v@[p as int].name@),
        decreases v@.len() - p, if found { 0int } else { 1int },
    {
        let yn = chars_of(v[p].name.as_str());
        if str_less(&xn, &yn) {
            found = true;
        } else {
            p = p + 1;
        }
    }
    let ghost old_v = v@;
    proof {
        assert(insertion_point(old_v, x, p as int));
    }
    v.insert(p, x);
    proof {
        assert forall|i: int, j: int| 0 <= i < j < v@.len() implies !seq_less(
            v@[j].name@,
            v@[i].name@,
        ) by {
            if i < p && j == p {
            } else if i == p && j > p {
                let y = old_v[j - 1];
                if p < old_v.len() {
                    if seq_less(y.name@, x.name@) {
                        crate::text::lemma_seq_less_transitive(y.name@, x.name@, old_v[p as int].name@);
                        if j - 1 > p {
                            assert(!seq_less(old_v[j - 1].name@, old_v[p as int].name@));
                        } else {
                            crate::text::lemma_seq_less_irreflexive(y.name@);
                        }
                    }
                }
            } else if i < p && j > p {
                assert(v@[i] == old_v[i] && v@[j] == old_v[j - 1]);
            } else if i > p {
                assert(v@[i] == old_v[i - 1] && v@[j] == old_v[j - 1]);
            } else {
                assert(v@[i] == old_v[i] && v@[j] == old_v[j]);
            }
        }
    }
}

fn size_bytes_exec(t: &Option<String>) -> (r: u64)
    ensures
        r == size_bytes(*t),
{
    match t {
        Some(s) => {
            let c = chars_of(s.as_str());
            let tr = trim_ws(&c);
            match crate::text::parse_u64(&tr) {
                Some(sectors) => sectors.wrapping_mul(512),
                None => 0,
            }
        },
        None => 0,
    }
}

fn trimmed_nonempty_exec(t: &Option<String>) -> (r: Option<String>)
    ensures
        opt_seq(r) == trimmed_nonempty(*t),
{
    match t {
        Some(s) => {
            let c = chars_of(s.as_str());
            let tr = trim_ws(&c);
            if tr.len() > 0 {
                Some(string_of(&tr))
            } else {
                None
            }
        },
        None => None,
    }
}

fn describe_entry(e: &RawBlockDevice, size: u64) -> (d: BlockDevice)
    requires
        size == size_bytes(e.size_text),
    ensures
        describes(d, *e),
{
    let mut path = chars_of("/dev/");
    append_str(&mut path, e.name.as_str());
    let removable = match &e.removable_text {
        Some(t) => {
            let c = chars_of(t.as_str());
            let tr = trim_ws(&c);
            eq_str(&tr, "1")
        },
        None => false,
    };
    let model = match trimmed_nonempty_exec(&e.model_text) {
        Some(m) => Some(m),
        None => trimmed_nonempty_exec(&e.vendor_text),
    };
    let d = BlockDevice {
        path: string_of(&path),
        name: string_of_str(e.name.as_str()),
        size,
        size_display: format_size(size),
        model,
        removable,
        device_type: detect_device_type(e.name.as_str()),
    };
    proof {
        reveal(describes);
        reveal_strlit("/dev/");
        reveal_strlit("1");
    }
    d
}

/// `d` describes some listed entry of `es`.
pub open spec fn describes_some(d: BlockDevice, es: Seq<RawBlockDevice>) -> bool {
    exists|j: int| 0 <= j < es.len() && is_listed(#[trigger] es[j]) && describes(d, es[j])
}

/// Every device of `out` describes some listed entry of `es`.
pub open spec fn all_described(out: Seq<BlockDevice>, es: Seq<RawBlockDevice>) -> bool {
    forall|a: int| 0 <= a < out.len() ==> describes_some(#[trigger] out[a], es)
}

/// Every listed entry of `es` is described by some device of `out`.
pub open spec fn all_listed(out: Seq<BlockDevice>, es: Seq<RawBlockDevice>) -> bool {
    forall|j: int|
        #![trigger es[j]]
        0 <= j < es.len() && is_listed(es[j]) ==> exists|a: int|
            0 <= a < out.len() && describes(#[trigger] out[a], es[j])
}

proof fn lemma_skip_entry(out: Seq<BlockDevice>, es: Seq<RawBlockDevice>, e: RawBlockDevice)
    requires
        all_described(out, es),
        all_listed(out, es),
        !is_listed(e),
    ensures
        all_described(out, es.push(e)),
        all_listed(out, es.push(e)),
{
    assert forall|a: int| 0 <= a < out.len() implies describes_some(#[trigger] out[a], es.push(e)) by {
        let j = choose|j: int| 0 <= j < es.len() && is_listed(#[trigger] es[j]) && describes(out[a], es[j]);
        assert(es.push(e)[j] == es[j]);
    }
    assert forall|j: int| #![trigger es.push(e)[j]] 0 <= j < es.push(e).len() && is_listed(es.push(e)[j]) implies exists|a: int|
        0 <= a < out.len() && describes(#[trigger] out[a], es.push(e)[j]) by {
        assert(es.push(e)[j] == es[j]);
    }
}

proof fn lemma_add_described(
    before: Seq<BlockDevice>,
    out: Seq<BlockDevice>,
    es: Seq<RawBlockDevice>,
    e: RawBlockDevice,
    d: BlockDevice,
    p: int,
)
    requires
        all_described(before, es),
        is_listed(e),
        describes(d, e),
        0 <= p <= before.len(),
        out == before.insert(p, d),
    ensures
        all_described(out, es.push(e)),
{
    let es2 = es.push(e);
    assert forall|a: int| 0 <= a < out.len() implies describes_some(#[trigger] out[a], es2) by {
        if a == p {
            let j = es.len() as int;
            assert(es2[j] == e);
            assert(out[a] == d);
        } else {
            let b = if a < p { a } else { a - 1 };
            assert(out[a] == before[b]);
            assert(describes_some(before[b], es));
            let j = choose|j: int| 0 <= j < es.len() && is_listed(#[trigger] es[j]) && describes(before[b], es[j]);
            assert(es2[j] == es[j]);
        }
    }
}

proof fn lemma_add_listed(
    before: Seq<BlockDevice>,
    out: Seq<BlockDevice>,
    es: Seq<RawBlockDevice>,
    e: RawBlockDevice,
    d: BlockDevice,
    p: int,
)
    requires
        all_listed(before, es),
        describes(d, e),
        0 <= p <= before.len(),
        out == before.insert(p, d),
    ensures
        all_listed(out, es.push(e)),
{
    let es2 = es.push(e);
    assert forall|j: int| #![trigger es2[j]] 0 <= j < es2.len() && is_listed(es2[j]) implies exists|a: int|
        0 <= a < out.len() && describes(#[trigger] out[a], es2[j]) by {
        if j == es.len() {
            assert(out[p] == d);
            assert(es2[j] == e);
            assert(describes(out[p], es2[j]));
        } else {
            assert(es2[j] == es[j]);
            assert(is_listed(es[j]));
            let a0 = choose|a: int| 0 <= a < before.len() && describes(#[trigger] before[a], es[j]);
            if a0 < p {
                assert(out[a0] == before[a0]);
                assert(describes(out[a0], es2[j]));
            } else {
                assert(out[a0 + 1] == before[a0]);
                assert(describes(out[a0 + 1], es2[j]));
            }
        }
    }
}

pub open spec fn listed_pred() -> spec_fn(RawBlockDevice) -> bool {
    |e: RawBlockDevice| is_listed(e)
}

/// The devices listed from `/sys/block` entries: RAM disks (`ram*`, `zram*`),
/// entries without a device node and zero-sized devices are skipped; the rest
/// are described and sorted by name (stably, so equal names keep their order).
pub fn list_block_devices(entries: Vec<RawBlockDevice>) -> (r: Vec<BlockDevice>)
    ensures
        sorted_by_name(r@),
        r@.len() == entries@.filter(listed_pred()).len(),
        all_described(r@, entries@),
        all_listed(r@, entries@),
{
    let mut out: Vec<BlockDevice> = Vec::new();
    let n = entries.len();
    proof {
        assert(entries@.take(0) =~= Seq::<RawBlockDevice>::empty());
        reveal(Seq::filter);
    }
    for i in 0..n
        invariant
            n == entries@.len(),
            sorted_by_name(out@),
            out@.len() == entries@.take(i as int).filter(listed_pred()).len(),
            all_described(out@, entries@.take(i as int)),
            all_listed(out@, entries@.take(i as int)),
    {
        let e = &entries[i];
        let ghost es = entries@.take(i as int);
        proof {
            assert(entries@.take(i + 1) =~= es.push(entries@[i as int]));
            es.lemma_filter_push(entries@[i as int], listed_pred());
        }
        let is_ram = starts_with_str(&chars_of(e.name.as_str()), "ram") || starts_with_str(
            &chars_of(e.name.as_str()),
            "zram",
        );
        let size = if is_ram || !e.dev_node_exists {
            0
        } else {
            size_bytes_exec(&e.size_text)
        };
        if size != 0 {
            let d = describe_entry(e, size);
            let ghost before = out@;
            insert_sorted(&mut out, d);
            proof {
                let p = choose|p: int| insertion_point(before, d, p) && out@ == before.insert(p, d);
                lemma_add_described(before, out@, es, *e, d, p);
                lemma_add_listed(before, out@, es, *e, d, p);
            }
        } else {
            proof {
                lemma_skip_entry(out@, es, *e);
            }
        }
    }
    proof {
        assert(entries@.take(n as int) =~= entries@);
    }
    out
}

pub open spec fn is_whole_disk(d: BlockDevice) -> bool {
    d.device_type == DeviceType::Disk || d.device_type == DeviceType::NVMe || d.device_type
        == DeviceType::Loop
}

pub open spec fn whole_disk_pred() -> spec_fn(BlockDevice) -> bool {
    |d: BlockDevice| is_whole_disk(d)
}

/// Keep only whole disks (disks, NVMe namespaces and loop devices), in order.
pub fn list_disks_only(devices: Vec<BlockDevice>) -> (r: Vec<BlockDevice>)
    ensures
        r@ == devices@.filter(whole_disk_pred()),
{
    let mut out: Vec<BlockDevice> = Vec::new();
    let mut rest = devices;
    let ghost all = rest@;
    let ghost mut k: int = 0;
    while rest.len() > 0
        invariant
            0 <= k <= all.len(),
            rest@ == all.skip(k),
            out@ == all.take(k).filter(whole_disk_pred()),
        decreases rest@.len(),
    {
        let d = rest.remove(0);
        proof {
            assert(d == all[k]);
            assert(all.take(k + 1) =~= all.take(k).push(all[k]));
            all.take(k).lemma_filter_push(all[k], whole_disk_pred());
        }
        let keep = match d.device_type {
            DeviceType::Disk | DeviceType::NVMe | DeviceType::Loop => true,
            _ => false,
        };
        if keep {
            out.push(d);
        }
        proof {
            assert(rest@ =~= all.skip(k + 1));
            k = k + 1;
        }
    }
    proof {
        assert(all.take(k) =~= all);
    }
    out
}

/// A listed device shows its model whenever the model attribute holds text
/// (trimmed); the vendor stands in only when the model is absent or blank, and
/// then trimmed too.
pub proof fn lemma_model_before_vendor(d: BlockDevice, e: RawBlockDevice)
    requires
        describes(d, e),
    ensures
        e.model_text is Some && trim(e.model_text.unwrap()@).len() > 0 ==> opt_seq(d.model) == Some(
            trim(e.model_text.unwrap()@),
        ),
        (e.model_text is None || trim(e.model_text.unwrap()@).len() == 0) && e.vendor_text is Some && trim(
            e.vendor_text.unwrap()@,
        ).len() > 0 ==> opt_seq(d.model) == Some(trim(e.vendor_text.unwrap()@)),
        (e.model_text is None || trim(e.model_text.unwrap()@).len() == 0) && (e.vendor_text is None || trim(
            e.vendor_text.unwrap()@,
        ).len() == 0) ==> d.model is None,
{
    reveal(describes);
    match e.model_text {
        Some(m) => {
            if trim(m@).len() > 0 {
                assert(trimmed_nonempty(e.model_text) == Some(trim(m@)));
            } else {
                assert(trimmed_nonempty(e.model_text) is None);
            }
        },
        None => {},
    }
    match e.vendor_text {
        Some(v) => {
            if trim(v@).len() > 0 {
                assert(trimmed_nonempty(e.vendor_text) == Some(trim(v@)));
            } else {
                assert(trimmed_nonempty(e.vendor_text) is None);
            }
        },
        None => {},
    }
}


/// A listed device is named after its entry, lives under `/dev/`, and is
/// removable exactly when the `removable` attribute reads `1` (trimmed).
pub proof fn lemma_device_identity(d: BlockDevice, e: RawBlockDevice)
    requires
        describes(d, e),
    ensures
        d.name@ == e.name@,
        d.path@ == "/dev/"@ + e.name@,
        d.removable <==> (e.removable_text is Some && trim(e.removable_text.unwrap()@) == "1"@),
{
    reveal(describes);
}

} // verus!
