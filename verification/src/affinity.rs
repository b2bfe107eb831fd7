//! Helpers of the affinity controller: cpuset group values and snapshots,
//! the guarded background uclamp write, core lists of the layout, and the
//! parsers of the /proc and cgroup files it reads.
use vstd::prelude::*;
use crate::common::{ranges_tuple, CoreGroupRanges};
use crate::core_ctl::{nonblank_spec, ostr, read_nonblank};
use crate::cpulist::{cpu_list, format_cpu_list, join_dec, parse_cpu_list, sorted_distinct};
use crate::lists::opt_view;
use crate::sysfs::{writes_view, NodeWrite};
use crate::text::{
    chars_eq, chars_to_string, dec, dec_chars, dec_int, dec_int_chars, first_index, i64_to_string,
    parse_i32, parse_i32_spec, parse_u32, parse_u64, parse_unsigned, push_all, split, split_chars,
    str_eq, str_to_chars, sub_chars, trim, trim_chars, u64_to_string, words, words_chars,
};

verus! {

// ---------------------------------------------------------------------------
// [bg_uclamp]
// ---------------------------------------------------------------------------

/// Milliseconds after which an unchanged background uclamp value is written
/// again.
pub const BG_UCLAMP_REASSERT_MS: u64 = 60000;

/// The guard code of `max`.
pub const BG_UCLAMP_MAX_CODE: u64 = 0xffff_ffff_ffff_ffff;

/// The guard code of a uclamp value: `max`; otherwise the percentage before
/// the first `.` plus one; 0 (unknown: always write) when it does not parse.
pub open spec fn bg_uclamp_code_spec(val: Seq<char>) -> u64 {
    if val == "max"@ {
        BG_UCLAMP_MAX_CODE
    } else {
        match parse_unsigned(split(val, '.')[0], 0xffff_ffff) {
            Some(p) => (p + 1) as u64,
            None => 0,
        }
    }
}

/// The guard code of a background uclamp.max value: `max`, or one more than
/// the whole percentage before the dot; 0 (always written) when neither.
pub fn bg_uclamp_code(val: &str) -> (r: u64)
    ensures
        r == bg_uclamp_code_spec(val@),
{
    proof {
        reveal_strlit("max");
    }
    if str_eq(val, "max") {
        return BG_UCLAMP_MAX_CODE;
    }
    let c = str_to_chars(val);
    let parts = split_chars(c.as_slice(), '.');
    proof {
        crate::text::lemma_split_nonempty(c@, '.');
    }
    match parse_u32(parts[0].as_slice()) {
        Some(p) => p as u64 + 1,
        None => 0,
    }
}

/// The groups whose `cpu.uclamp.max` is lowered (system-background is left
/// alone on purpose).
pub open spec fn bg_demote_paths() -> Seq<Seq<char>> {
    seq!["/dev/cpuctl/background/cpu.uclamp.max"@, "/dev/cpuctl/restricted/cpu.uclamp.max"@]
}

/// The last background uclamp write: its code and time (ms).
pub struct BgUclampGuard {
    pub code: u64,
    pub at_ms: u64,
}

impl BgUclampGuard {
    /// Nothing written yet.
    pub fn new() -> (r: BgUclampGuard)
        ensures
            r.code == 0,
            r.at_ms == 0,
    {
        BgUclampGuard { code: 0, at_ms: 0 }
    }

    /// The writes of `val` to the background groups' `cpu.uclamp.max`:
    /// skipped when the value is known, equal to the last one, and written
    /// less than a minute ago; otherwise both groups are written and the
    /// guard remembers the value and the time (also when a write fails).
    pub fn write_bg_uclamp_max(&mut self, val: &str, now_ms: u64) -> (r: Vec<NodeWrite>)
        ensures
            ({
                let code = bg_uclamp_code_spec(val@);
                let skip = code != 0 && code == old(self).code && (if now_ms >= old(self).at_ms {
                    now_ms - old(self).at_ms
                } else {
                    0
                }) < BG_UCLAMP_REASSERT_MS;
                if skip {
                    r@.len() == 0 && *final(self) == *old(self)
                } else {
                    writes_view(r@) == bg_demote_paths().map_values(|p: Seq<char>| (p, val@))
                        && final(self).code == code && final(self).at_ms == now_ms
                }
            }),
    {
        let code = bg_uclamp_code(val);
        let mut out: Vec<NodeWrite> = Vec::new();
        if code != 0 && code == self.code && now_ms.saturating_sub(self.at_ms) < BG_UCLAMP_REASSERT_MS {
            return out;
        }
        out.push(NodeWrite {
            path: chars_to_string(str_to_chars("/dev/cpuctl/background/cpu.uclamp.max")),
            value: chars_to_string(str_to_chars(val)),
        });
        out.push(NodeWrite {
            path: chars_to_string(str_to_chars("/dev/cpuctl/restricted/cpu.uclamp.max")),
            value: chars_to_string(str_to_chars(val)),
        });
        proof {
            assert(writes_view(out@) =~= bg_demote_paths().map_values(|p: Seq<char>| (p, val@)));
        }
        self.code = code;
        self.at_ms = now_ms;
        out
    }
}

// ---------------------------------------------------------------------------
// [threads]
// ---------------------------------------------------------------------------

/// Thread names that mark a key thread of the foreground app.
pub open spec fn key_thread_comms() -> Seq<Seq<char>> {
    seq!["RenderThread"@, "GLThread"@, "GameThread"@, "UnityMain"@, "UnityGfxDeviceW"@]
}

/// A key thread: the app's main thread, or one of the rendering/game
/// threads by name.
pub fn is_key_thread(tid: i32, main_tid: i32, comm: &str) -> (r: bool)
    ensures
        r == (tid == main_tid || key_thread_comms().contains(comm@)),
{
    if tid == main_tid {
        return true;
    }
    let names: Vec<&str> = vec!["RenderThread", "GLThread", "GameThread", "UnityMain", "UnityGfxDeviceW"];
    proof {
        assert(names@.map_values(|s: &str| s@) =~= key_thread_comms());
    }
    let mut i: usize = 0;
    while i < names.len()
        invariant
            i <= names.len(),
            names@.map_values(|s: &str| s@) == key_thread_comms(),
            names@.len() == 5,
            forall|k: int| 0 <= k < i ==> key_thread_comms()[k] != comm@,
        decreases names.len() - i,
    {
        proof {
            assert(names@.map_values(|s: &str| s@)[i as int] == names@[i as int]@);
        }
        if str_eq(names[i], comm) {
            proof {
                assert(key_thread_comms()[i as int] == comm@);
            }
            return true;
        }
        i += 1;
    }
    proof {
        if key_thread_comms().contains(comm@) {
            let k = choose|k: int| 0 <= k < 5 && key_thread_comms()[k] == comm@;
            assert(key_thread_comms()[k] != comm@);
        }
    }
    false
}

/// The home core of a thread for logs: its number, or `-` when it has none.
pub fn fmt_home(home: i16) -> (r: String)
    ensures
        r@ == if home >= 0 {
            dec_int(home as int)
        } else {
            "-"@
        },
{
    if home >= 0 {
        i64_to_string(home as i64)
    } else {
        chars_to_string(str_to_chars("-"))
    }
}

/// What `sample_one_tid` takes from `/proc/{tid}/stat`.
pub struct ThreadSample {
    pub comm: String,
    pub ticks: u64,
    /// The core the thread runs on (-1 when unreadable).
    pub processor: i32,
}

/// Index of the last occurrence of `c` in `s`, if any.
pub open spec fn last_index(s: Seq<char>, c: char) -> Option<int> {
    if exists|i: int| 0 <= i < s.len() && s[i] == c {
        Some(
            choose|i: int|
                0 <= i < s.len() && s[i] == c && forall|j: int| i < j < s.len() ==> s[j] != c,
        )
    } else {
        None
    }
}

/// The name's brackets are in order: a `)` after the first `(`.
pub open spec fn stat_bracketed(s: Seq<char>) -> bool {
    match (first_index(s, '('), last_index(s, ')')) {
        (Some(o), Some(c)) => o < c,
        _ => true,
    }
}

pub open spec fn word_u64(ws: Seq<Seq<char>>, i: int) -> u64 {
    if i < ws.len() {
        match parse_unsigned(ws[i], 0xffff_ffff_ffff_ffff) {
            Some(v) => v as u64,
            None => 0,
        }
    } else {
        0
    }
}

/// A stat line as sampled: the name between the first `(` and the last
/// `)`; after it at least 37 fields, of which the 12th and 13th (user and
/// system ticks, 0 when unparsable) are summed (wrapping) and the 37th is
/// the processor (-1 when unparsable).
pub open spec fn thread_sample_spec(s: Seq<char>) -> Option<(Seq<char>, u64, i32)> {
    match (first_index(s, '('), last_index(s, ')')) {
        (Some(o), Some(c)) => {
            let ws = words(s.skip(c + 1));
            if ws.len() < 37 {
                None
            } else {
                Some(
                    (
                        s.subrange(o + 1, c),
                        ((word_u64(ws, 11) + word_u64(ws, 12)) % 0x1_0000_0000_0000_0000) as u64,
                        match parse_i32_spec(ws[36]) {
                            Some(p) => p as i32,
                            None => -1i32,
                        },
                    ),
                )
            }
        },
        _ => None,
    }
}

fn rfind_char(s: &[char], c: char) -> (r: Option<usize>)
    ensures
        match r {
            Some(i) => i < s@.len() && last_index(s@, c) == Some(i as int),
            None => last_index(s@, c) is None,
        },
{
    let mut i: usize = s.len();
    while i > 0
        invariant
            i <= s.len(),
            forall|j: int| i <= j < s.len() ==> s@[j] != c,
        decreases i,
    {
        if s[i - 1] == c {
            proof {
                let k = choose|k: int|
                    0 <= k < s@.len() && s@[k] == c && forall|j: int| k < j < s@.len() ==> s@[j] != c;
                if k < i - 1 {
                    assert(s@[i - 1] != c);
                } else if k > i - 1 {
                    assert(s@[k] != c);
                }
            }
            return Some(i - 1);
        }
        i -= 1;
    }
    None
}

/// Parses the text of `/proc/{tid}/stat` (see `thread_sample_spec`).
pub fn parse_thread_stat(text: &str) -> (r: Option<ThreadSample>)
    requires
        stat_bracketed(text@),
    ensures
        match r {
            Some(t) => thread_sample_spec(text@) == Some((t.comm@, t.ticks, t.processor)),
            None => thread_sample_spec(text@) is None,
        },
{
    let s = str_to_chars(text);
    let open = match crate::text::find_char(s.as_slice(), '(') {
        Some(o) => o,
        None => return None,
    };
    let close = match rfind_char(s.as_slice(), ')') {
        Some(c) => c,
        None => return None,
    };
    let rest = sub_chars(s.as_slice(), close + 1, s.len());
    proof {
        assert(rest@ =~= s@.skip(close + 1));
    }
    let ws = words_chars(rest.as_slice());
    if ws.len() < 37 {
        return None;
    }
    let u = match parse_u64(ws[11].as_slice()) {
        Some(v) => v,
        None => 0,
    };
    let st = match parse_u64(ws[12].as_slice()) {
        Some(v) => v,
        None => 0,
    };
    let p = match parse_i32(ws[36].as_slice()) {
        Some(v) => v,
        None => -1,
    };
    let comm = sub_chars(s.as_slice(), open + 1, close);
    proof {
        assert(ws@[11]@ == words(s@.skip(close + 1))[11]);
        assert(ws@[12]@ == words(s@.skip(close + 1))[12]);
        assert(ws@[36]@ == words(s@.skip(close + 1))[36]);
        assert(u.wrapping_add(st) == ((u + st) % 0x1_0000_0000_0000_0000) as u64) by (bit_vector);
    }
    Some(ThreadSample { comm: chars_to_string(comm), ticks: u.wrapping_add(st), processor: p })
}

// ---------------------------------------------------------------------------
// [cpuset]
// ---------------------------------------------------------------------------

/// `/dev/cpuset/{group}/cpus`.
pub open spec fn cpuset_cpus_path(group: Seq<char>) -> Seq<char> {
    "/dev/cpuset/"@ + group + "/cpus"@
}

fn cpuset_cpus_node(group: &str) -> (r: String)
    ensures
        r@ == cpuset_cpus_path(group@),
{
    let mut out = str_to_chars("/dev/cpuset/");
    push_all(&mut out, str_to_chars(group).as_slice());
    push_all(&mut out, str_to_chars("/cpus").as_slice());
    chars_to_string(out)
}

pub open spec fn pairs_view(v: Seq<(String, String)>) -> Seq<(Seq<char>, Seq<char>)> {
    v.map_values(|p: (String, String)| (p.0@, p.1@))
}

/// The node writes of `(group, cpus)` items: each group's `cpus` node.
pub fn write_cpuset_cpus_items(items: &Vec<(String, String)>) -> (r: Vec<NodeWrite>)
    ensures
        writes_view(r@) == pairs_view(items@).map_values(
            |p: (Seq<char>, Seq<char>)| (cpuset_cpus_path(p.0), p.1),
        ),
{
    let mut out: Vec<NodeWrite> = Vec::new();
    let mut i: usize = 0;
    while i < items.len()
        invariant
            i <= items.len(),
            writes_view(out@) == pairs_view(items@.take(i as int)).map_values(
                |p: (Seq<char>, Seq<char>)| (cpuset_cpus_path(p.0), p.1),
            ),
        decreases items.len() - i,
    {
        let w = NodeWrite {
            path: cpuset_cpus_node(items[i].0.as_str()),
            value: chars_to_string(str_to_chars(items[i].1.as_str())),
        };
        let ghost before = out@;
        out.push(w);
        proof {
            assert(writes_view(out@) =~= writes_view(before).push(
                (cpuset_cpus_path(items@[i as int].0@), items@[i as int].1@),
            ));
            assert(pairs_view(items@.take(i + 1)).map_values(
                |p: (Seq<char>, Seq<char>)| (cpuset_cpus_path(p.0), p.1),
            ) =~= pairs_view(items@.take(i as int)).map_values(
                |p: (Seq<char>, Seq<char>)| (cpuset_cpus_path(p.0), p.1),
            ).push((cpuset_cpus_path(items@[i as int].0@), items@[i as int].1@)));
        }
        i += 1;
    }
    proof {
        assert(items@.take(items.len() as int) =~= items@);
    }
    out
}

/// The node writes of `(path, value)` items taken from a snapshot.
pub fn write_cpuset_paths_items(items: &Vec<(String, String)>) -> (r: Vec<NodeWrite>)
    ensures
        writes_view(r@) == pairs_view(items@),
{
    let mut out: Vec<NodeWrite> = Vec::new();
    let mut i: usize = 0;
    while i < items.len()
        invariant
            i <= items.len(),
            writes_view(out@) == pairs_view(items@.take(i as int)),
        decreases items.len() - i,
    {
        let w = NodeWrite {
            path: chars_to_string(str_to_chars(items[i].0.as_str())),
            value: chars_to_string(str_to_chars(items[i].1.as_str())),
        };
        let ghost before = out@;
        out.push(w);
        proof {
            assert(writes_view(out@) =~= writes_view(before).push(
                (items@[i as int].0@, items@[i as int].1@),
            ));
            assert(pairs_view(items@.take(i + 1)) =~= pairs_view(items@.take(i as int)).push(
                (items@[i as int].0@, items@[i as int].1@),
            ));
        }
        i += 1;
    }
    proof {
        assert(items@.take(items.len() as int) =~= items@);
    }
    out
}

/// The business cpuset groups a reserved core is removed from.
pub open spec fn reserved_exclude_groups_spec() -> Seq<Seq<char>> {
    seq!["top-app"@, "foreground"@, "background"@, "system-background"@, "restricted"@]
}

/// The cpuset groups the reserved scene-mode core is removed from.
pub fn reserved_exclude_groups() -> (r: Vec<&'static str>)
    ensures
        r@.map_values(|s: &str| s@) == reserved_exclude_groups_spec(),
{
    let r = vec!["top-app", "foreground", "background", "system-background", "restricted"];
    proof {
        assert(r@.map_values(|s: &str| s@) =~= reserved_exclude_groups_spec());
    }
    r
}

/// The new cpus of a group once `core` is taken out: none when the group
/// does not hold the core or the value would not change.
pub open spec fn other_than(core: usize) -> spec_fn(usize) -> bool {
    |c: usize| c != core
}

pub open spec fn excluded_value(core: usize, cur: Seq<char>) -> Option<Seq<char>> {
    let set = cpu_list(cur);
    if !set.contains(core) {
        None
    } else {
        let new = join_dec(sorted_distinct(set.filter(other_than(core))));
        if new == cur {
            None
        } else {
            Some(new)
        }
    }
}

pub open spec fn has_group(snap: Seq<(Seq<char>, Seq<char>)>, g: Seq<char>) -> bool {
    exists|k: int| 0 <= k < snap.len() && #[trigger] snap[k].0 == g
}

/// Taking `core` out of the groups read as `reads` (group, cpus reading):
/// the snapshot after it (each changed group's original cpus, recorded
/// once) and the writes (group, new cpus), in reading order.
pub open spec fn exclude_fold(
    core: usize,
    reads: Seq<(Seq<char>, Option<Seq<char>>)>,
    snap0: Seq<(Seq<char>, Seq<char>)>,
) -> (Seq<(Seq<char>, Seq<char>)>, Seq<(Seq<char>, Seq<char>)>)
    decreases reads.len(),
{
    if reads.len() == 0 {
        (snap0, Seq::empty())
    } else {
        let (s, w) = exclude_fold(core, reads.drop_last(), snap0);
        let g = reads.last().0;
        match nonblank_spec(reads.last().1) {
            None => (s, w),
            Some(cur) => match excluded_value(core, cur) {
                None => (s, w),
                Some(new) => (
                    if has_group(s, g) {
                        s
                    } else {
                        s.push((g, cur))
                    },
                    w.push((g, new)),
                ),
            },
        }
    }
}

/// Writing `value` to the groups read as `reads`: groups that could not be
/// read are skipped; the snapshot records each group's original cpus once.
pub open spec fn tracked_fold(
    reads: Seq<(Seq<char>, Option<Seq<char>>)>,
    value: Seq<char>,
    snap0: Seq<(Seq<char>, Seq<char>)>,
) -> (Seq<(Seq<char>, Seq<char>)>, Seq<(Seq<char>, Seq<char>)>)
    decreases reads.len(),
{
    if reads.len() == 0 {
        (snap0, Seq::empty())
    } else {
        let (s, w) = tracked_fold(reads.drop_last(), value, snap0);
        let g = reads.last().0;
        match nonblank_spec(reads.last().1) {
            None => (s, w),
            Some(cur) => (
                if has_group(s, g) {
                    s
                } else {
                    s.push((g, cur))
                },
                w.push((g, value)),
            ),
        }
    }
}

pub open spec fn reads_view(v: Seq<(String, Option<String>)>) -> Seq<(Seq<char>, Option<Seq<char>>)> {
    v.map_values(|p: (String, Option<String>)| (p.0@, opt_view(p.1)))
}

fn snapshot_has(snap: &Vec<(String, String)>, g: &str) -> (r: bool)
    ensures
        r == has_group(pairs_view(snap@), g@),
{
    let mut i: usize = 0;
    while i < snap.len()
        invariant
            i <= snap.len(),
            forall|k: int| 0 <= k < i ==> #[trigger] pairs_view(snap@)[k].0 != g@,
        decreases snap.len() - i,
    {
        if str_eq(snap[i].0.as_str(), g) {
            proof {
                assert(pairs_view(snap@)[i as int].0 == g@);
            }
            return true;
        }
        i += 1;
    }
    false
}

fn push_pair(v: &mut Vec<(String, String)>, a: &str, b: &str)
    ensures
        pairs_view(final(v)@) == pairs_view(old(v)@).push((a@, b@)),
{
    let ghost before = v@;
    v.push((chars_to_string(str_to_chars(a)), chars_to_string(str_to_chars(b))));
    proof {
        assert(pairs_view(v@) =~= pairs_view(before).push((a@, b@)));
    }
}

/// The new cpus of one group without `core` (see `excluded_value`).
pub fn exclude_core_value(core: usize, cur: &str) -> (r: Option<String>)
    ensures
        opt_view(r) == excluded_value(core, cur@),
{
    let set = parse_cpu_list(cur);
    let mut found = false;
    let mut kept: Vec<usize> = Vec::new();
    let mut i: usize = 0;
    while i < set.len()
        invariant
            i <= set.len(),
            kept@ == set@.take(i as int).filter(other_than(core)),
            found == set@.take(i as int).contains(core),
        decreases set.len() - i,
    {
        proof {
            assert(set@.take(i + 1).drop_last() =~= set@.take(i as int));
            assert(set@.take(i + 1).last() == set@[i as int]);
            reveal(Seq::filter);
            assert(set@.take(i + 1).filter(other_than(core)) == if other_than(core)(set@[i as int]) {
                set@.take(i as int).filter(other_than(core)).push(set@[i as int])
            } else {
                set@.take(i as int).filter(other_than(core))
            });
            if set@.take(i as int).contains(core) {
                let t0 = set@.take(i as int);
                let k = choose|k: int| 0 <= k < t0.len() && #[trigger] t0[k] == core;
                assert(set@.take(i + 1)[k] == core);
            }
            if set@[i as int] == core {
                assert(set@.take(i + 1)[i as int] == core);
            }
            if set@.take(i + 1).contains(core) && set@[i as int] != core {
                let t1 = set@.take(i + 1);
                let k = choose|k: int| 0 <= k < t1.len() && #[trigger] t1[k] == core;
                assert(set@.take(i as int)[k] == core);
            }
        }
        if set[i] == core {
            found = true;
        } else {
            kept.push(set[i]);
        }
        i += 1;
    }
    proof {
        assert(set@.take(set.len() as int) =~= set@);
    }
    if !found {
        return None;
    }
    let new = format_cpu_list(kept);
    if str_eq(new.as_str(), cur) {
        None
    } else {
        Some(new)
    }
}

/// Takes `core` out of every business cpuset group (`reads`: each group
/// with its cpus reading): returns the writes (group, new cpus); the
/// original value of each changed group is added to `snapshot` unless the
/// group is already there (so a value rewritten by the framework never
/// replaces the true original).
pub fn exclude_core_from_cpusets(
    core: usize,
    reads: &Vec<(String, Option<String>)>,
    snapshot: &mut Vec<(String, String)>,
) -> (r: Vec<(String, String)>)
    ensures
        (pairs_view(final(snapshot)@), pairs_view(r@)) == exclude_fold(
            core,
            reads_view(reads@),
            pairs_view(old(snapshot)@),
        ),
{
    let ghost rv = reads_view(reads@);
    let ghost s0 = pairs_view(snapshot@);
    let mut writes: Vec<(String, String)> = Vec::new();
    let mut i: usize = 0;
    while i < reads.len()
        invariant
            i <= reads.len(),
            rv == reads_view(reads@),
            s0 == pairs_view(old(snapshot)@),
            (pairs_view(snapshot@), pairs_view(writes@)) == exclude_fold(core, rv.take(i as int), s0),
        decreases reads.len() - i,
    {
        proof {
            assert(rv.take(i + 1).drop_last() =~= rv.take(i as int));
            assert(rv.take(i + 1).last() == rv[i as int]);
        }
        let g = reads[i].0.as_str();
        match read_nonblank(match &reads[i].1 {
            Some(t) => Some(t.as_str()),
            None => None,
        }) {
            Some(cur) => {
                match exclude_core_value(core, cur.as_str()) {
                    Some(new) => {
                        if !snapshot_has(snapshot, g) {
                            push_pair(snapshot, g, cur.as_str());
                        }
                        push_pair(&mut writes, g, new.as_str());
                    },
                    None => {},
                }
            },
            None => {},
        }
        i += 1;
    }
    proof {
        assert(rv.take(reads.len() as int) =~= rv);
    }
    writes
}

/// Gives the reserved core back: the snapshot is written back as it is.
pub fn restore_excluded_cpusets(snapshot: Vec<(String, String)>) -> (r: Vec<NodeWrite>)
    ensures
        writes_view(r@) == pairs_view(snapshot@).map_values(
            |p: (Seq<char>, Seq<char>)| (cpuset_cpus_path(p.0), p.1),
        ),
{
    write_cpuset_cpus_items(&snapshot)
}

/// The static lab grouping: `value` goes to every readable group of
/// `reads`, whose original cpus are recorded in `snapshot` once.
pub fn set_groups_cpus_tracked(
    reads: &Vec<(String, Option<String>)>,
    value: &str,
    snapshot: &mut Vec<(String, String)>,
) -> (r: Vec<(String, String)>)
    ensures
        (pairs_view(final(snapshot)@), pairs_view(r@)) == tracked_fold(
            reads_view(reads@),
            value@,
            pairs_view(old(snapshot)@),
        ),
{
    let ghost rv = reads_view(reads@);
    let ghost s0 = pairs_view(snapshot@);
    let mut writes: Vec<(String, String)> = Vec::new();
    let mut i: usize = 0;
    while i < reads.len()
        invariant
            i <= reads.len(),
            rv == reads_view(reads@),
            s0 == pairs_view(old(snapshot)@),
            (pairs_view(snapshot@), pairs_view(writes@)) == tracked_fold(rv.take(i as int), value@, s0),
        decreases reads.len() - i,
    {
        proof {
            assert(rv.take(i + 1).drop_last() =~= rv.take(i as int));
            assert(rv.take(i + 1).last() == rv[i as int]);
        }
        let g = reads[i].0.as_str();
        match read_nonblank(match &reads[i].1 {
            Some(t) => Some(t.as_str()),
            None => None,
        }) {
            Some(cur) => {
                if !snapshot_has(snapshot, g) {
                    push_pair(snapshot, g, cur.as_str());
                }
                push_pair(&mut writes, g, value);
            },
            None => {},
        }
        i += 1;
    }
    proof {
        assert(rv.take(reads.len() as int) =~= rv);
    }
    writes
}

/// A group that was excluded once keeps its first snapshot: excluding again
/// never changes the recorded original of a group already recorded.
pub proof fn law_snapshot_keeps_first(
    core: usize,
    reads: Seq<(Seq<char>, Option<Seq<char>>)>,
    snap0: Seq<(Seq<char>, Seq<char>)>,
    k: int,
)
    requires
        0 <= k < snap0.len(),
    ensures
        k < exclude_fold(core, reads, snap0).0.len(),
        exclude_fold(core, reads, snap0).0[k] == snap0[k],
    decreases reads.len(),
{
    if reads.len() > 0 {
        law_snapshot_keeps_first(core, reads.drop_last(), snap0, k);
    }
}

// ---------------------------------------------------------------------------
// [core_lists]
// ---------------------------------------------------------------------------

/// `{a}-{b}`.
pub open spec fn range_text(a: nat, b: nat) -> Seq<char> {
    dec(a) + seq!['-'] + dec(b)
}

fn range_string(a: usize, b: usize) -> (r: String)
    ensures
        r@ == range_text(a as nat, b as nat),
{
    let mut out = dec_chars(a as u64);
    out.push('-');
    push_all(&mut out, dec_chars(b as u64).as_slice());
    proof {
        assert(out@ =~= range_text(a as nat, b as nat));
    }
    chars_to_string(out)
}

/// The little cores (the background group of the static lab grouping).
pub fn little_list(r: &CoreGroupRanges) -> (s: String)
    requires
        r.little.end >= 1,
    ensures
        s@ == range_text(r.little.start as nat, (r.little.end - 1) as nat),
{
    range_string(r.little.start, r.little.end - 1)
}

/// The first two little cores.
pub fn little_pair_list(r: &CoreGroupRanges) -> (s: String)
    requires
        r.little.start < usize::MAX,
    ensures
        s@ == range_text(r.little.start as nat, (r.little.start + 1) as nat),
{
    range_string(r.little.start, r.little.start + 1)
}

/// The big cores.
pub fn big_list(r: &CoreGroupRanges) -> (s: String)
    requires
        r.big.end >= 1,
    ensures
        s@ == range_text(r.big.start as nat, (r.big.end - 1) as nat),
{
    range_string(r.big.start, r.big.end - 1)
}

/// The big and prime cores; the big cores alone on a layout without prime.
pub fn big_plus_prime_list(r: &CoreGroupRanges) -> (s: String)
    requires
        r.big.end >= 1,
    ensures
        s@ == if r.prime.start < r.prime.end {
            range_text(r.big.start as nat, (r.prime.end - 1) as nat)
        } else {
            range_text(r.big.start as nat, (r.big.end - 1) as nat)
        },
{
    if r.prime.start < r.prime.end {
        range_string(r.big.start, r.prime.end - 1)
    } else {
        range_string(r.big.start, r.big.end - 1)
    }
}

/// Every core: the root cpuset's `cpus` when it reads (trimmed, not
/// blank); otherwise `0-{last}` from the layout.
pub fn all_cores_list(root_cpus: Option<&str>, r: &CoreGroupRanges) -> (s: String)
    requires
        r.big.end >= 1,
    ensures
        s@ == match nonblank_spec(ostr(root_cpus)) {
            Some(v) => v,
            None => range_text(
                0,
                (if r.prime.end > r.big.end {
                    r.prime.end
                } else {
                    r.big.end
                } - 1) as nat,
            ),
        },
{
    match read_nonblank(root_cpus) {
        Some(v) => v,
        None => {
            let last = if r.prime.end > r.big.end {
                r.prime.end
            } else {
                r.big.end
            };
            range_string(0, last - 1)
        },
    }
}

/// The group name of a cluster's first (lowest) core.
pub open spec fn core_name_spec(first: usize, t: (usize, usize, usize, usize, usize, usize)) -> Option<Seq<char>> {
    if t.0 <= first < t.1 {
        Some("little"@)
    } else if t.2 <= first < t.3 {
        Some("big"@)
    } else if t.4 <= first < t.5 {
        Some("prime"@)
    } else {
        None
    }
}

pub open spec fn seq_min_usize(s: Seq<usize>) -> usize
    decreases s.len(),
{
    if s.len() <= 1 {
        if s.len() == 1 {
            s[0]
        } else {
            0
        }
    } else {
        let m = seq_min_usize(s.drop_last());
        if s.last() < m {
            s.last()
        } else {
            m
        }
    }
}

/// The group of a policy by its lowest affected core: little, big or prime;
/// none for an empty list or a core outside the layout.
pub fn core_name_for(affected: &Vec<usize>, r: &CoreGroupRanges) -> (s: Option<&'static str>)
    ensures
        match s {
            Some(n) => affected@.len() > 0 && core_name_spec(seq_min_usize(affected@), ranges_tuple(*r))
                == Some(n@),
            None => affected@.len() == 0 || core_name_spec(seq_min_usize(affected@), ranges_tuple(*r))
                is None,
        },
{
    if affected.len() == 0 {
        return None;
    }
    let mut m = affected[0];
    let mut i: usize = 1;
    proof {
        assert(affected@.take(1).len() == 1);
    }
    while i < affected.len()
        invariant
            1 <= i <= affected.len(),
            m == seq_min_usize(affected@.take(i as int)),
        decreases affected.len() - i,
    {
        proof {
            assert(affected@.take(i + 1).drop_last() =~= affected@.take(i as int));
            assert(affected@.take(i + 1).last() == affected@[i as int]);
        }
        if affected[i] < m {
            m = affected[i];
        }
        i += 1;
    }
    proof {
        assert(affected@.take(affected.len() as int) =~= affected@);
        reveal_strlit("little");
        reveal_strlit("big");
        reveal_strlit("prime");
    }
    if r.little.start <= m && m < r.little.end {
        Some("little")
    } else if r.big.start <= m && m < r.big.end {
        Some("big")
    } else if r.prime.start <= m && m < r.prime.end {
        Some("prime")
    } else {
        None
    }
}

// ---------------------------------------------------------------------------
// [proc_parsers]
// ---------------------------------------------------------------------------

/// `/dev/cpuset/tasks` for the root group, `/dev/cpuset/{p}/tasks`
/// otherwise, with slashes trimmed off both ends of the group path.
pub open spec fn cpuset_tasks_path_spec(group: Seq<char>) -> Seq<char> {
    let q = strip_slashes(group);
    if q.len() == 0 {
        "/dev/cpuset/tasks"@
    } else {
        "/dev/cpuset/"@ + q + "/tasks"@
    }
}

/// `s` without leading and trailing `/`.
pub open spec fn strip_slashes(s: Seq<char>) -> Seq<char> {
    strip_slash_end(strip_slash_start(s))
}

pub open spec fn strip_slash_start(s: Seq<char>) -> Seq<char>
    decreases s.len(),
{
    if s.len() > 0 && s[0] == '/' {
        strip_slash_start(s.drop_first())
    } else {
        s
    }
}

pub open spec fn strip_slash_end(s: Seq<char>) -> Seq<char>
    decreases s.len(),
{
    if s.len() > 0 && s.last() == '/' {
        strip_slash_end(s.drop_last())
    } else {
        s
    }
}

proof fn lemma_slash_start_step(s: Seq<char>, i: int)
    requires
        0 <= i < s.len(),
        s[i] == '/',
    ensures
        strip_slash_start(s.skip(i)) == strip_slash_start(s.skip(i + 1)),
{
    assert(s.skip(i).drop_first() =~= s.skip(i + 1));
}

proof fn lemma_slash_end_step(s: Seq<char>, j: int)
    requires
        0 < j <= s.len(),
        s[j - 1] == '/',
    ensures
        strip_slash_end(s.take(j)) == strip_slash_end(s.take(j - 1)),
{
    assert(s.take(j).drop_last() =~= s.take(j - 1));
}

fn strip_slashes_chars(s: &[char]) -> (r: Vec<char>)
    ensures
        r@ == strip_slashes(s@),
{
    let mut i: usize = 0;
    proof {
        assert(s@.skip(0) =~= s@);
    }
    while i < s.len() && s[i] == '/'
        invariant
            i <= s.len(),
            strip_slash_start(s@) == strip_slash_start(s@.skip(i as int)),
        decreases s.len() - i,
    {
        proof {
            lemma_slash_start_step(s@, i as int);
        }
        i += 1;
    }
    let ghost t = s@.skip(i as int);
    let mut j: usize = s.len();
    proof {
        assert(t.take(j - i) =~= t);
    }
    while j > i && s[j - 1] == '/'
        invariant
            i <= j <= s.len(),
            t == s@.skip(i as int),
            strip_slash_end(t) == strip_slash_end(t.take(j - i)),
        decreases j,
    {
        proof {
            lemma_slash_end_step(t, (j - i) as int);
        }
        j -= 1;
    }
    let out = sub_chars(s, i, j);
    proof {
        assert(out@ =~= t.take(j - i));
    }
    out
}

/// The `tasks` node of a cpuset group given as in `/proc/self/cgroup`
/// (with or without leading slash; `/` is the root group).
pub fn cpuset_tasks_path(group_path: &str) -> (r: String)
    ensures
        r@ == cpuset_tasks_path_spec(group_path@),
{
    let p = strip_slashes_chars(str_to_chars(group_path).as_slice());
    if p.len() == 0 {
        chars_to_string(str_to_chars("/dev/cpuset/tasks"))
    } else {
        let mut out = str_to_chars("/dev/cpuset/");
        push_all(&mut out, p.as_slice());
        push_all(&mut out, str_to_chars("/tasks").as_slice());
        chars_to_string(out)
    }
}

/// The log tag of a write or affinity result: `ok`, or `e{errno}` (`e0`
/// when the error carries no errno).
pub fn io_result_tag(res: Result<(), Option<i32>>) -> (r: String)
    ensures
        r@ == match res {
            Ok(()) => "ok"@,
            Err(Some(e)) => seq!['e'] + dec_int(e as int),
            Err(None) => "e0"@,
        },
{
    match res {
        Ok(()) => chars_to_string(str_to_chars("ok")),
        Err(Some(e)) => {
            let mut out = vec!['e'];
            push_all(&mut out, dec_int_chars(e as i64).as_slice());
            proof {
                assert(out@ =~= seq!['e'] + dec_int(e as int));
            }
            chars_to_string(out)
        },
        Err(None) => chars_to_string(str_to_chars("e0")),
    }
}

/// The first piece of a `/proc/{pid}/cmdline` (up to the first NUL),
/// trimmed.
pub fn read_cmdline(text: &str) -> (r: String)
    ensures
        r@ == trim(split(text@, '\0')[0]),
{
    let c = str_to_chars(text);
    let parts = split_chars(c.as_slice(), '\0');
    proof {
        crate::text::lemma_split_nonempty(c@, '\0');
    }
    chars_to_string(trim_chars(parts[0].as_slice()))
}

/// The value of the first `Tgid:` line of `/proc/{tid}/status`, trimmed and
/// parsed (none when there is no such line or it does not parse).
pub open spec fn tgid_spec(ls: Seq<Seq<char>>) -> Option<i32>
    decreases ls.len(),
{
    if ls.len() == 0 {
        None
    } else if crate::text::starts_with(ls[0], "Tgid:"@) {
        match parse_i32_spec(trim(ls[0].skip(5))) {
            Some(v) => Some(v as i32),
            None => None,
        }
    } else {
        tgid_spec(ls.drop_first())
    }
}

/// The owning process of a thread: the `Tgid:` line of `/proc/{tid}/status`.
pub fn read_tgid(status: &str) -> (r: Option<i32>)
    ensures
        r == tgid_spec(crate::text::lines(status@)),
{
    let c = str_to_chars(status);
    let ls = crate::text::lines_chars(c.as_slice());
    let ghost gl = crate::text::lines(status@);
    let prefix = str_to_chars("Tgid:");
    proof {
        reveal_strlit("Tgid:");
        assert(gl.skip(0) =~= gl);
    }
    let mut i: usize = 0;
    while i < ls.len()
        invariant
            i <= ls.len(),
            gl == crate::text::lines(status@),
            prefix@ == "Tgid:"@,
            prefix@.len() == 5,
            ls@.len() == gl.len(),
            forall|k: int| 0 <= k < ls@.len() ==> #[trigger] ls@[k]@ == gl[k],
            tgid_spec(gl) == tgid_spec(gl.skip(i as int)),
        decreases ls.len() - i,
    {
        proof {
            assert(ls@[i as int]@ == gl[i as int]);
            assert(gl.skip(i as int)[0] == gl[i as int]);
            assert(gl.skip(i as int).drop_first() =~= gl.skip(i + 1));
        }
        if crate::text::chars_starts_with(ls[i].as_slice(), prefix.as_slice()) {
            let v = sub_chars(ls[i].as_slice(), 5, ls[i].len());
            proof {
                assert(v@ =~= gl[i as int].skip(5));
            }
            let t = trim_chars(v.as_slice());
            return parse_i32(t.as_slice());
        }
        i += 1;
    }
    proof {
        assert(gl.skip(i as int) =~= Seq::<Seq<char>>::empty());
    }
    None
}

/// The version of `/proc/sys/kernel/osrelease`: the text before the first
/// `-`, `+` or space, split at dots; major and minor must parse, the patch
/// level is 0 when missing or unparsable.
pub open spec fn kernel_version_spec(text: Seq<char>) -> Option<(u32, u32, u32)> {
    let head = version_head(trim(text));
    let parts = split(head, '.');
    match (parse_unsigned(parts[0], 0xffff_ffff), if parts.len() > 1 {
        parse_unsigned(parts[1], 0xffff_ffff)
    } else {
        None
    }) {
        (Some(a), Some(b)) => Some(
            (
                a as u32,
                b as u32,
                if parts.len() > 2 {
                    match parse_unsigned(parts[2], 0xffff_ffff) {
                        Some(c) => c as u32,
                        None => 0,
                    }
                } else {
                    0
                },
            ),
        ),
        _ => None,
    }
}

pub open spec fn is_version_sep(c: char) -> bool {
    c == '-' || c == '+' || c == ' '
}

/// `s` up to its first `-`, `+` or space.
pub open spec fn version_head(s: Seq<char>) -> Seq<char> {
    if exists|i: int| 0 <= i < s.len() && is_version_sep(s[i]) {
        s.take(
            choose|i: int|
                0 <= i < s.len() && is_version_sep(s[i]) && forall|j: int| 0 <= j < i ==> !is_version_sep(s[j]),
        )
    } else {
        s
    }
}

/// The kernel version of `/proc/sys/kernel/osrelease`: major, minor and
/// (0 when missing) patch of the text before the first `-`, `+` or space.
pub fn kernel_version(text: &str) -> (r: Option<(u32, u32, u32)>)
    ensures
        r == kernel_version_spec(text@),
{
    let t = trim_chars(str_to_chars(text).as_slice());
    let mut i: usize = 0;
    while i < t.len() && !(t[i] == '-' || t[i] == '+' || t[i] == ' ')
        invariant
            i <= t.len(),
            forall|j: int| 0 <= j < i ==> !is_version_sep(t@[j]),
        decreases t.len() - i,
    {
        i += 1;
    }
    let head = sub_chars(t.as_slice(), 0, i);
    proof {
        if i < t.len() {
            let k = choose|k: int|
                0 <= k < t@.len() && is_version_sep(t@[k]) && forall|j: int| 0 <= j < k ==> !is_version_sep(t@[j]);
            if k < i {
                assert(!is_version_sep(t@[k]));
            } else if k > i {
                assert(!is_version_sep(t@[i as int]));
            }
            assert(head@ =~= t@.take(i as int));
        } else {
            assert(head@ =~= t@);
        }
        assert(head@ == version_head(trim(text@)));
    }
    let parts = split_chars(head.as_slice(), '.');
    proof {
        crate::text::lemma_split_nonempty(head@, '.');
    }
    let a = match parse_u32(parts[0].as_slice()) {
        Some(a) => a,
        None => return None,
    };
    if parts.len() < 2 {
        return None;
    }
    let b = match parse_u32(parts[1].as_slice()) {
        Some(b) => b,
        None => return None,
    };
    let c = if parts.len() > 2 {
        match parse_u32(parts[2].as_slice()) {
            Some(c) => c,
            None => 0,
        }
    } else {
        0
    };
    Some((a, b, c))
}

/// Some controller of a comma-separated list is `cpuset` (trimmed).
pub open spec fn has_cpuset(ctrls: Seq<char>) -> bool {
    exists|k: int| 0 <= k < split(ctrls, ',').len() && trim(#[trigger] split(ctrls, ',')[k]) == "cpuset"@
}

/// One line of `/proc/self/cgroup` (`id:controllers:path`): `None` when it
/// lacks two colons; otherwise the trimmed path when the controllers
/// include `cpuset`.
#[verifier::opaque]
pub open spec fn cgroup_line(line: Seq<char>) -> Option<Option<Seq<char>>> {
    match crate::text::split_once(line, ':') {
        None => None,
        Some((_, rest)) => match crate::text::split_once(rest, ':') {
            None => None,
            Some((ctrls, path)) => if has_cpuset(ctrls) {
                Some(Some(trim(path)))
            } else {
                Some(None)
            },
        },
    }
}

/// The cpuset group of the daemon from `/proc/self/cgroup`: the path of the
/// first line whose controllers include `cpuset`. A line without two colons
/// ends the search with none.
pub open spec fn cgroup_search(ls: Seq<Seq<char>>) -> Option<Seq<char>>
    decreases ls.len(),
{
    if ls.len() == 0 {
        None
    } else {
        match cgroup_line(ls[0]) {
            None => None,
            Some(Some(p)) => Some(p),
            Some(None) => cgroup_search(ls.drop_first()),
        }
    }
}

fn has_cpuset_ctrl(ctrls: &[char]) -> (r: bool)
    ensures
        r == has_cpuset(ctrls@),
{
    let parts = split_chars(ctrls, ',');
    let want = str_to_chars("cpuset");
    let mut i: usize = 0;
    while i < parts.len()
        invariant
            i <= parts.len(),
            want@ == "cpuset"@,
            parts@.len() == split(ctrls@, ',').len(),
            forall|k: int| 0 <= k < parts@.len() ==> #[trigger] parts@[k]@ == split(ctrls@, ',')[k],
            forall|k: int| 0 <= k < i ==> trim(#[trigger] split(ctrls@, ',')[k]) != "cpuset"@,
        decreases parts.len() - i,
    {
        let t = trim_chars(parts[i].as_slice());
        proof {
            assert(parts@[i as int]@ == split(ctrls@, ',')[i as int]);
        }
        if chars_eq(t.as_slice(), want.as_slice()) {
            return true;
        }
        i += 1;
    }
    false
}

fn cgroup_line_exec(line: &[char]) -> (r: Option<Option<Vec<char>>>)
    ensures
        match r {
            None => cgroup_line(line@) is None,
            Some(None) => cgroup_line(line@) == Some(None::<Seq<char>>),
            Some(Some(p)) => cgroup_line(line@) == Some(Some(p@)),
        },
{
    reveal(cgroup_line);
    let (_, rest) = match crate::text::split_once_chars(line, ':') {
        Some(p) => p,
        None => return None,
    };
    let (ctrls, path) = match crate::text::split_once_chars(rest.as_slice(), ':') {
        Some(p) => p,
        None => return None,
    };
    if has_cpuset_ctrl(ctrls.as_slice()) {
        Some(Some(trim_chars(path.as_slice())))
    } else {
        Some(None)
    }
}

/// The daemon's cpuset group from `/proc/self/cgroup`: the path of the
/// first line whose controller list names `cpuset`.
pub fn self_cpuset_group(cgroup_text: &str) -> (r: Option<String>)
    ensures
        opt_view(r) == cgroup_search(crate::text::lines(cgroup_text@)),
{
    let c = str_to_chars(cgroup_text);
    let ls = crate::text::lines_chars(c.as_slice());
    let ghost gl = crate::text::lines(cgroup_text@);
    proof {
        assert(gl.skip(0) =~= gl);
    }
    let mut i: usize = 0;
    while i < ls.len()
        invariant
            i <= ls.len(),
            gl == crate::text::lines(cgroup_text@),
            ls@.len() == gl.len(),
            forall|k: int| 0 <= k < ls@.len() ==> #[trigger] ls@[k]@ == gl[k],
            cgroup_search(gl) == cgroup_search(gl.skip(i as int)),
        decreases ls.len() - i,
    {
        proof {
            assert(ls@[i as int]@ == gl[i as int]);
            assert(gl.skip(i as int)[0] == gl[i as int]);
            assert(gl.skip(i as int).drop_first() =~= gl.skip(i + 1));
        }
        match cgroup_line_exec(ls[i].as_slice()) {
            None => return None,
            Some(Some(p)) => return Some(chars_to_string(p)),
            Some(None) => {},
        }
        i += 1;
    }
    proof {
        assert(gl.skip(i as int) =~= Seq::<Seq<char>>::empty());
    }
    None
}

} // verus!
