//! The GPU frequency guard: devfreq nodes found at start-up are locked at
//! their hardware maximum (min = max) and restored from a snapshot.
use vstd::prelude::*;
use crate::common::{str_to_lowercase, unicode_lowercase};
use crate::fast::{read_u32_spec, read_u32_value, seq_max};
use crate::lists::opt_view;
use crate::sysfs::{writes_view, NodeWrite};
use crate::text::{
    chars_contains, chars_to_string, contains_seq, dec, parse_u32, parse_u32_words,
    parse_unsigned, parsed_u32_words, push_all, str_to_chars, trim, trim_chars, u64_to_string,
    words,
};

verus! {

/// The smallest element (0 for an empty sequence).
pub open spec fn seq_min(s: Seq<u32>) -> u32
    decreases s.len(),
{
    if s.len() == 0 {
        0
    } else {
        let m = seq_min(s.drop_last());
        if s.len() == 1 || s.last() < m {
            s.last()
        } else {
            m
        }
    }
}

/// The hardware range of a devfreq directory from its
/// `available_frequencies` text: (lowest, highest); none when the file could
/// not be read or lists no frequency.
pub open spec fn freq_range_spec(avail: Option<Seq<char>>) -> Option<(u32, u32)> {
    match avail {
        None => None,
        Some(t) => {
            let f = parsed_u32_words(words(t));
            if f.len() == 0 {
                None
            } else {
                Some((seq_min(f), seq_max(f)))
            }
        },
    }
}

/// The range a node is probed with: the available frequencies; for an
/// Adreno (`kgsl`) directory without them, `max_gpu_clk` as the maximum and
/// the directory's `min_freq` (or that maximum) as the minimum. A range
/// with a zero end or with min above max is refused.
pub open spec fn probe_range_spec(
    dir: Seq<char>,
    avail: Option<Seq<char>>,
    adreno_max_clk: Option<Seq<char>>,
    dir_min: Option<Seq<char>>,
) -> Option<(u32, u32)> {
    let base = match freq_range_spec(avail) {
        Some(r) => Some(r),
        None => if contains_seq(dir, "kgsl"@) {
            match read_u32_spec(adreno_max_clk) {
                Some(mx) => Some(
                    (
                        match read_u32_spec(dir_min) {
                            Some(v) => v,
                            None => mx,
                        },
                        mx,
                    ),
                ),
                None => None,
            }
        } else {
            None
        },
    };
    match base {
        Some((lo, hi)) => if hi != 0 && lo != 0 && lo <= hi {
            Some((lo, hi))
        } else {
            None
        },
        None => None,
    }
}

pub open spec fn ostr(o: Option<&str>) -> Option<Seq<char>> {
    match o {
        Some(s) => Some(s@),
        None => None,
    }
}

/// The hardware range of a devfreq directory.
pub fn read_freq_range(avail: Option<&str>) -> (r: Option<(u32, u32)>)
    ensures
        r == freq_range_spec(ostr(avail)),
{
    let t = match avail {
        Some(t) => t,
        None => return None,
    };
    let f = parse_u32_words(t);
    if f.len() == 0 {
        return None;
    }
    let mut lo: u32 = f[0];
    let mut hi: u32 = f[0];
    let mut i: usize = 1;
    proof {
        assert(f@.take(1).drop_last() =~= Seq::<u32>::empty());
        assert(f@.take(1).last() == f@[0]);
    }
    while i < f.len()
        invariant
            1 <= i <= f.len(),
            lo == seq_min(f@.take(i as int)),
            hi == seq_max(f@.take(i as int)),
        decreases f.len() - i,
    {
        proof {
            assert(f@.take(i + 1).drop_last() =~= f@.take(i as int));
            assert(f@.take(i + 1).last() == f@[i as int]);
        }
        if f[i] < lo {
            lo = f[i];
        }
        if f[i] > hi {
            hi = f[i];
        }
        i += 1;
    }
    proof {
        assert(f@.take(f.len() as int) =~= f@);
    }
    Some((lo, hi))
}

/// The range a devfreq directory is probed with (see `probe_range_spec`).
pub fn probe_range(
    dir: &str,
    avail: Option<&str>,
    adreno_max_clk: Option<&str>,
    dir_min: Option<&str>,
) -> (r: Option<(u32, u32)>)
    ensures
        r == probe_range_spec(dir@, ostr(avail), ostr(adreno_max_clk), ostr(dir_min)),
{
    let base = match read_freq_range(avail) {
        Some(r) => Some(r),
        None => {
            let d = str_to_chars(dir);
            let k = str_to_chars("kgsl");
            if chars_contains(d.as_slice(), k.as_slice()) {
                match read_u32_value(adreno_max_clk) {
                    Some(mx) => Some(
                        (
                            match read_u32_value(dir_min) {
                                Some(v) => v,
                                None => mx,
                            },
                            mx,
                        ),
                    ),
                    None => None,
                }
            } else {
                None
            }
        },
    };
    match base {
        Some((lo, hi)) => if hi != 0 && lo != 0 && lo <= hi {
            Some((lo, hi))
        } else {
            None
        },
        None => None,
    }
}

/// A `/sys/class/devfreq` entry is a GPU when its lower-cased name holds
/// `gpu`, `kgsl` or `mali`.
pub open spec fn is_gpu_name_spec(name: Seq<char>) -> bool {
    let l = unicode_lowercase(name);
    contains_seq(l, "gpu"@) || contains_seq(l, "kgsl"@) || contains_seq(l, "mali"@)
}

/// A devfreq device is a GPU when its lower-cased name contains `gpu`,
/// `kgsl` or `mali`.
pub fn is_gpu_devfreq_name(name: &str) -> (r: bool)
    ensures
        r == is_gpu_name_spec(name@),
{
    let l = str_to_lowercase(name);
    let c = str_to_chars(l.as_str());
    chars_contains(c.as_slice(), str_to_chars("gpu").as_slice()) || chars_contains(
        c.as_slice(),
        str_to_chars("kgsl").as_slice(),
    ) || chars_contains(c.as_slice(), str_to_chars("mali").as_slice())
}

/// One probed devfreq directory.
pub struct GpuNode {
    pub label: String,
    /// Whether its `min_freq` can be written.
    pub has_min_writer: bool,
    /// `max_freq` / `min_freq` as read at probe time, trimmed; on release
    /// the parsed value is written back as a plain decimal number.
    pub orig_max: Option<String>,
    pub orig_min: Option<String>,
    pub hw_min: u32,
    pub hw_max: u32,
}

pub type GpuNodeView = (Seq<char>, bool, Option<Seq<char>>, Option<Seq<char>>, u32, u32);

pub open spec fn gpu_node_view(n: GpuNode) -> GpuNodeView {
    (n.label@, n.has_min_writer, opt_view(n.orig_max), opt_view(n.orig_min), n.hw_min, n.hw_max)
}

pub open spec fn trimmed_read(read: Option<Seq<char>>) -> Option<Seq<char>> {
    match read {
        Some(t) => Some(trim(t)),
        None => None,
    }
}

/// `{dir}/{node}`.
pub open spec fn dir_node(dir: Seq<char>, node: Seq<char>) -> Seq<char> {
    dir + seq!['/'] + node
}

/// The min a release writes back: the snapshot value, unless it does not
/// parse or equals the hardware maximum (a min = max lock left behind by a
/// killed daemon), in which case the hardware minimum.
pub open spec fn restore_min_spec(orig: Seq<char>, hw_min: u32, hw_max: u32) -> u32 {
    match parse_unsigned(orig, 0xffff_ffff) {
        Some(v) => if v != hw_max {
            v as u32
        } else {
            hw_min
        },
        None => hw_min,
    }
}

/// The release writes of one node: min first, then max (so max never
/// drops below min on the way down).
pub open spec fn gpu_restore_writes(n: GpuNodeView) -> Seq<(Seq<char>, Seq<char>)> {
    let min = if n.1 {
        match n.3 {
            Some(o) => seq![(dir_node(n.0, "min_freq"@), dec(restore_min_spec(o, n.4, n.5) as nat))],
            None => Seq::empty(),
        }
    } else {
        Seq::empty()
    };
    let max = match n.2 {
        Some(o) => match parse_unsigned(o, 0xffff_ffff) {
            Some(v) => seq![(dir_node(n.0, "max_freq"@), dec(v))],
            None => Seq::empty(),
        },
        None => Seq::empty(),
    };
    min + max
}

pub open spec fn gpu_release_writes(ns: Seq<GpuNodeView>) -> Seq<(Seq<char>, Seq<char>)>
    decreases ns.len(),
{
    if ns.len() == 0 {
        Seq::empty()
    } else {
        gpu_release_writes(ns.drop_last()) + gpu_restore_writes(ns.last())
    }
}

fn read_trimmed(read: Option<&str>) -> (r: Option<String>)
    ensures
        opt_view(r) == trimmed_read(ostr(read)),
{
    match read {
        Some(t) => Some(chars_to_string(trim_chars(str_to_chars(t).as_slice()))),
        None => None,
    }
}

fn dir_node_string(dir: &str, node: &str) -> (r: String)
    ensures
        r@ == dir_node(dir@, node@),
{
    let mut out = str_to_chars(dir);
    out.push('/');
    push_all(&mut out, str_to_chars(node).as_slice());
    proof {
        assert(out@ =~= dir_node(dir@, node@));
    }
    chars_to_string(out)
}

fn dir_write(dir: &str, node: &str, v: u32) -> (r: NodeWrite)
    ensures
        r.path@ == dir_node(dir@, node@),
        r.value@ == dec(v as nat),
{
    NodeWrite { path: dir_node_string(dir, node), value: u64_to_string(v as u64) }
}

impl GpuNode {
    /// The node of a directory probed with `range` (see `probe_range`),
    /// snapshotting the `max_freq` / `min_freq` readings.
    pub fn probe(
        dir: &str,
        range: (u32, u32),
        has_min_writer: bool,
        max_read: Option<&str>,
        min_read: Option<&str>,
    ) -> (r: GpuNode)
        ensures
            gpu_node_view(r) == (
                dir@,
                has_min_writer,
                trimmed_read(ostr(max_read)),
                trimmed_read(ostr(min_read)),
                range.0,
                range.1,
            ),
    {
        GpuNode {
            label: chars_to_string(str_to_chars(dir)),
            has_min_writer,
            orig_max: read_trimmed(max_read),
            orig_min: read_trimmed(min_read),
            hw_min: range.0,
            hw_max: range.1,
        }
    }
}

fn copy_opt(o: &Option<String>) -> (r: Option<String>)
    ensures
        opt_view(r) == opt_view(*o),
{
    match o {
        Some(s) => Some(chars_to_string(str_to_chars(s.as_str()))),
        None => None,
    }
}

fn copy_node(n: &GpuNode) -> (r: GpuNode)
    ensures
        gpu_node_view(r) == gpu_node_view(*n),
{
    GpuNode {
        label: chars_to_string(str_to_chars(n.label.as_str())),
        has_min_writer: n.has_min_writer,
        orig_max: copy_opt(&n.orig_max),
        orig_min: copy_opt(&n.orig_min),
        hw_min: n.hw_min,
        hw_max: n.hw_max,
    }
}

/// `ns` without the nodes labelled `label`.
pub open spec fn remove_label(ns: Seq<GpuNodeView>, label: Seq<char>) -> Seq<GpuNodeView>
    decreases ns.len(),
{
    if ns.len() == 0 {
        Seq::empty()
    } else {
        let r = remove_label(ns.drop_last(), label);
        if ns.last().0 == label {
            r
        } else {
            r.push(ns.last())
        }
    }
}

/// The GPU frequency lock over the probed nodes.
pub struct GpuGuard {
    nodes: Vec<GpuNode>,
    active: bool,
}

impl GpuGuard {
    pub closed spec fn is_active_spec(&self) -> bool {
        self.active
    }

    /// The probed nodes, in probe order.
    pub closed spec fn nodes_view(&self) -> Seq<GpuNodeView> {
        self.nodes@.map_values(|n: GpuNode| gpu_node_view(n))
    }

    /// A guard is only active with nodes to restore.
    pub open spec fn wf(&self) -> bool {
        self.is_active_spec() ==> self.nodes_view().len() > 0
    }

    /// A guard with no node yet; nodes are added as they are probed.
    pub fn new() -> (r: GpuGuard)
        ensures
            !r.is_active_spec(),
            r.nodes_view().len() == 0,
            r.wf(),
    {
        let r = GpuGuard { nodes: Vec::new(), active: false };
        proof {
            assert(r.nodes_view() =~= Seq::<GpuNodeView>::empty());
        }
        r
    }

    /// Adds a probed node; a node probed again replaces the older one.
    pub fn add_node(&mut self, node: GpuNode)
        ensures
            final(self).nodes_view() == remove_label(old(self).nodes_view(), node.label@).push(
                gpu_node_view(node),
            ),
            final(self).is_active_spec() == old(self).is_active_spec(),
            final(self).wf(),
    {
        let ghost s0 = self.nodes_view();
        let mut kept: Vec<GpuNode> = Vec::new();
        let mut i: usize = 0;
        while i < self.nodes.len()
            invariant
                i <= self.nodes.len(),
                s0 == self.nodes_view(),
                kept@.map_values(|n: GpuNode| gpu_node_view(n)) == remove_label(
                    s0.take(i as int),
                    node.label@,
                ),
            decreases self.nodes.len() - i,
        {
            proof {
                assert(s0.take(i + 1).drop_last() =~= s0.take(i as int));
                assert(s0.take(i + 1).last() == s0[i as int]);
            }
            if !crate::text::str_eq(self.nodes[i].label.as_str(), node.label.as_str()) {
                let c = copy_node(&self.nodes[i]);
                let ghost before = kept@;
                kept.push(c);
                proof {
                    assert(kept@.map_values(|n: GpuNode| gpu_node_view(n)) =~= before.map_values(
                        |n: GpuNode| gpu_node_view(n),
                    ).push(s0[i as int]));
                }
            }
            i += 1;
        }
        proof {
            assert(s0.take(self.nodes.len() as int) =~= s0);
        }
        let ghost before = kept@;
        kept.push(node);
        proof {
            assert(kept@.map_values(|n: GpuNode| gpu_node_view(n)) =~= before.map_values(
                |n: GpuNode| gpu_node_view(n),
            ).push(gpu_node_view(node)));
        }
        self.nodes = kept;
    }

    pub fn node_count(&self) -> (r: usize)
        ensures
            r == self.nodes_view().len(),
    {
        self.nodes.len()
    }

    pub fn is_active(&self) -> (r: bool)
        ensures
            r == self.is_active_spec(),
    {
        self.active
    }

    /// A lock is carried out only while the guard is idle and has nodes.
    pub fn lock_due(&self) -> (r: bool)
        ensures
            r == (!self.is_active_spec() && self.nodes_view().len() > 0),
    {
        !self.active && self.nodes.len() > 0
    }

    /// The first write of the lock of node `k`: its max to the hardware
    /// maximum.
    pub fn lock_max_write(&self, k: usize) -> (r: NodeWrite)
        requires
            k < self.nodes_view().len(),
        ensures
            r.path@ == dir_node(self.nodes_view()[k as int].0, "max_freq"@),
            r.value@ == dec(self.nodes_view()[k as int].5 as nat),
    {
        dir_write(self.nodes[k].label.as_str(), "max_freq", self.nodes[k].hw_max)
    }

    /// The second write of the lock of node `k`: its min to the hardware
    /// maximum, only after the max was raised and when min is writable.
    pub fn lock_min_write(&self, k: usize, max_ok: bool) -> (r: Option<NodeWrite>)
        requires
            k < self.nodes_view().len(),
        ensures
            match r {
                Some(w) => max_ok && self.nodes_view()[k as int].1 && w.path@ == dir_node(
                    self.nodes_view()[k as int].0,
                    "min_freq"@,
                ) && w.value@ == dec(self.nodes_view()[k as int].5 as nat),
                None => !(max_ok && self.nodes_view()[k as int].1),
            },
    {
        if max_ok && self.nodes[k].has_min_writer {
            Some(dir_write(self.nodes[k].label.as_str(), "min_freq", self.nodes[k].hw_max))
        } else {
            None
        }
    }

    /// Ends a lock (`max_ok[k]`: the max of node `k` was raised): the guard
    /// is active once one node's max was raised.
    pub fn finish_lock(&mut self, max_ok: &Vec<bool>)
        requires
            old(self).wf(),
            max_ok@.len() == old(self).nodes_view().len(),
        ensures
            final(self).is_active_spec() == (old(self).is_active_spec() || max_ok@.contains(true)),
            final(self).nodes_view() == old(self).nodes_view(),
            final(self).wf(),
    {
        let mut i: usize = 0;
        while i < max_ok.len()
            invariant
                i <= max_ok.len(),
                forall|j: int| 0 <= j < i ==> !max_ok@[j],
                max_ok@.len() == old(self).nodes_view().len(),
                self.nodes == old(self).nodes,
                self.active == old(self).active,
            decreases max_ok.len() - i,
        {
            if max_ok[i] {
                proof {
                    assert(max_ok@.contains(max_ok@[i as int]));
                }
                self.active = true;
                return;
            }
            i += 1;
        }
    }

    /// Releases the lock: while active, every node's min and max are
    /// written back from the snapshot (see `gpu_restore_writes`) and the
    /// guard goes idle; while idle nothing is written.
    pub fn release(&mut self) -> (r: Vec<NodeWrite>)
        ensures
            !final(self).is_active_spec(),
            final(self).nodes_view() == old(self).nodes_view(),
            final(self).wf(),
            old(self).is_active_spec() ==> writes_view(r@) == gpu_release_writes(
                old(self).nodes_view(),
            ),
            !old(self).is_active_spec() ==> r@.len() == 0,
    {
        let mut out: Vec<NodeWrite> = Vec::new();
        if !self.active {
            return out;
        }
        let ghost ns = self.nodes_view();
        let mut i: usize = 0;
        proof {
            assert(ns.take(0) =~= Seq::<GpuNodeView>::empty());
        }
        while i < self.nodes.len()
            invariant
                i <= self.nodes.len(),
                ns == self.nodes_view(),
                writes_view(out@) == gpu_release_writes(ns.take(i as int)),
            decreases self.nodes.len() - i,
        {
            proof {
                assert(ns.take(i + 1).drop_last() =~= ns.take(i as int));
                assert(ns.take(i + 1).last() == ns[i as int]);
            }
            let ghost before = writes_view(out@);
            let n = &self.nodes[i];
            let ghost nv = ns[i as int];
            let ghost min_part: Seq<(Seq<char>, Seq<char>)> = if nv.1 {
                match nv.3 {
                    Some(o) => seq![(dir_node(nv.0, "min_freq"@), dec(restore_min_spec(o, nv.4, nv.5) as nat))],
                    None => Seq::empty(),
                }
            } else {
                Seq::empty()
            };
            if n.has_min_writer {
                match &n.orig_min {
                    Some(o) => {
                        let v = match parse_u32(str_to_chars(o.as_str()).as_slice()) {
                            Some(v) => if v != n.hw_max {
                                v
                            } else {
                                n.hw_min
                            },
                            None => n.hw_min,
                        };
                        out.push(dir_write(n.label.as_str(), "min_freq", v));
                    },
                    None => {},
                }
            }
            proof {
                assert(writes_view(out@) =~= before + min_part);
            }
            let ghost mid = writes_view(out@);
            match &n.orig_max {
                Some(o) => match parse_u32(str_to_chars(o.as_str()).as_slice()) {
                    Some(v) => {
                        out.push(dir_write(n.label.as_str(), "max_freq", v));
                        proof {
                            assert(writes_view(out@) =~= mid + seq![(dir_node(nv.0, "max_freq"@), dec(v as nat))]);
                        }
                    },
                    None => {
                        proof {
                            assert(writes_view(out@) =~= mid + Seq::<(Seq<char>, Seq<char>)>::empty());
                        }
                    },
                },
                None => {
                    proof {
                        assert(writes_view(out@) =~= mid + Seq::<(Seq<char>, Seq<char>)>::empty());
                    }
                },
            }
            proof {
                assert(gpu_restore_writes(nv) =~= min_part + (writes_view(out@).skip(mid.len() as int)));
                assert(writes_view(out@) =~= before + gpu_restore_writes(nv));
            }
            i += 1;
        }
        proof {
            assert(ns.take(self.nodes.len() as int) =~= ns);
        }
        self.active = false;
        out
    }
}

/// A min equal to the hardware maximum (what a killed lock leaves behind)
/// is never written back as the node's original min, unless the hardware
/// range is a single frequency.
pub proof fn law_restore_min_skips_residue(orig: Seq<char>, hw_min: u32, hw_max: u32)
    requires
        hw_min != hw_max,
    ensures
        restore_min_spec(orig, hw_min, hw_max) != hw_max,
{
}

} // verus!
