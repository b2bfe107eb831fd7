//! Core-online takeover: core_ctl `min_cpus` raised to keep every core of a
//! cluster online in boost, the prime cluster halted (core_ctl `max_cpus=0`,
//! or each core written offline as a fallback) in scene mode, and every
//! snapshot restored on the way out. The I/O layer performs the reads and
//! writes; this state machine decides them.
use vstd::prelude::*;
use crate::common::{ranges_tuple, CoreGroupRanges};
use crate::lists::opt_view;
use crate::sysfs::{writes_view, NodeWrite};
use crate::text::{
    chars_eq, chars_eq_ignore_ascii_case, chars_to_string, dec, eq_ignore_ascii_case,
    parse_u32, parse_u32_words, parse_unsigned, parsed_u32_words, push_all, str_eq,
    str_to_chars, trim, trim_chars, u64_to_string, words,
};

verus! {

/// Milliseconds between two corrections of a vendor-rewritten `max_cpus`.
pub const MAX_CPUS_REASSERT_COOLDOWN_MS: u64 = 60000;

/// The takeover state.
#[derive(PartialEq, Eq, Structural, Clone, Copy)]
pub enum PowerState {
    /// Nothing taken over.
    Normal,
    /// min_cpus raised to the cluster size.
    Boost,
    /// The prime cluster halted.
    SceneMode,
}

/// The state asked for: boost wins over scene mode.
pub open spec fn target_state_spec(boost: bool, scenemode: bool) -> PowerState {
    if boost {
        PowerState::Boost
    } else if scenemode {
        PowerState::SceneMode
    } else {
        PowerState::Normal
    }
}

pub fn target_state(boost: bool, scenemode: bool) -> (r: PowerState)
    ensures
        r == target_state_spec(boost, scenemode),
{
    if boost {
        PowerState::Boost
    } else if scenemode {
        PowerState::SceneMode
    } else {
        PowerState::Normal
    }
}

/// The cores scene mode takes offline: the prime group, never core 0 (the
/// boot core cannot be unplugged).
pub open spec fn scenemode_targets_spec(prime_start: usize, prime_end: usize) -> Seq<u32> {
    Seq::new(
        if prime_start <= prime_end {
            (prime_end - prime_start) as nat
        } else {
            0
        },
        |k: int| (prime_start + k) as u32,
    ).filter(|c: u32| c != 0)
}

/// The prime cores of `ranges` except core 0, in order.
pub fn scenemode_targets(ranges: &CoreGroupRanges) -> (r: Vec<u32>)
    requires
        ranges.prime.end <= u32::MAX,
    ensures
        forall|k: int| 0 <= k < r@.len() ==> r@[k] != 0 && ranges.prime.start <= r@[k]
            < ranges.prime.end,
        forall|c: u32| ranges.prime.start <= c < ranges.prime.end && c != 0 ==> r@.contains(c),
        forall|i: int, j: int| 0 <= i < j < r@.len() ==> r@[i] < r@[j],
{
    let mut out: Vec<u32> = Vec::new();
    let mut c = ranges.prime.start;
    while c < ranges.prime.end
        invariant
            ranges.prime.end <= u32::MAX,
            ranges.prime.start <= c,
            c <= ranges.prime.end || c == ranges.prime.start,
            forall|k: int| 0 <= k < out@.len() ==> out@[k] != 0 && ranges.prime.start <= out@[k]
                < c,
            forall|d: u32| ranges.prime.start <= d < c && d != 0 ==> out@.contains(d),
            forall|i: int, j: int| 0 <= i < j < out@.len() ==> out@[i] < out@[j],
        decreases ranges.prime.end - c,
    {
        if c != 0 {
            let ghost before = out@;
            out.push(c as u32);
            proof {
                assert((c as u32) as int == c as int);
                assert(out@[out@.len() - 1] == c as u32);
                assert forall|d: u32| ranges.prime.start <= d < c + 1 && d != 0 implies out@.contains(d) by {
                    if d < c {
                        assert(before.contains(d));
                        let j = choose|j: int| 0 <= j < before.len() && before[j] == d;
                        assert(out@[j] == d);
                    }
                }
            }
        }
        c += 1;
    }
    out
}

/// One cluster under core_ctl control.
pub struct CoreCtlCluster {
    /// The core_ctl directory (`/sys/devices/system/cpu/cpu{N}/core_ctl`).
    pub dir: String,
    /// The cluster's first core.
    pub first_cpu: u32,
    /// Cores in the cluster: the boost value of min_cpus.
    pub cluster_size: u32,
    /// min_cpus as found.
    pub min_cpus: String,
    /// max_cpus as found (`None`: unreadable; scene mode then falls back to
    /// writing each core offline).
    pub max_cpus: Option<String>,
    /// core_ctl `enable` as found (`None`: unreadable).
    pub enable: Option<bool>,
}

/// What `set_power_state` does this round.
pub enum PowerStep {
    /// Already in scene mode: put back what was tampered with.
    Maintain,
    /// Same state, but a restore failed earlier: retry it.
    RetryRestore,
    /// Same state, nothing pending.
    Idle,
    /// Leave the current state (undo it), retry what a failed restore left,
    /// then enter the target.
    Switch(PowerState),
}

/// How scene mode halts the prime cluster.
pub enum ShrinkStep {
    /// The max_cpus path is already in effect.
    AlreadyApplied,
    /// core_ctl cannot do it: write each prime core offline instead.
    Fallback,
    /// Write `0` to the max_cpus node of cluster `idx` (then read it back).
    Write(usize, String),
}

/// `{dir}/{node}`.
pub open spec fn dir_node(dir: Seq<char>, node: Seq<char>) -> Seq<char> {
    dir + seq!['/'] + node
}

/// `/sys/devices/system/cpu/cpu{n}/{node}`.
pub open spec fn cpu_path(n: u32, node: Seq<char>) -> Seq<char> {
    "/sys/devices/system/cpu/cpu"@ + dec(n as nat) + seq!['/'] + node
}

pub fn cpu_node(n: u32, node: &str) -> (r: String)
    ensures
        r@ == cpu_path(n, node@),
{
    let mut out = str_to_chars("/sys/devices/system/cpu/cpu");
    push_all(&mut out, crate::text::dec_chars(n as u64).as_slice());
    out.push('/');
    push_all(&mut out, str_to_chars(node).as_slice());
    proof {
        assert(out@ =~= cpu_path(n, node@));
    }
    chars_to_string(out)
}

pub fn dir_node_string(dir: &str, node: &str) -> (r: String)
    ensures
        r@ == dir_node(dir@, node@),
{
    let mut out = str_to_chars(dir);
    out.push('/');
    push_all(&mut out, str_to_chars(node).as_slice());
    proof {
        assert(out@ =~= dir_node(dir@, node@));
    }
    chars_to_string(out)
}

/// The core_ctl directory of the cluster whose first core is `n`.
pub fn core_ctl_dir(n: u32) -> (r: String)
    ensures
        r@ == "/sys/devices/system/cpu/cpu"@ + dec(n as nat) + "/core_ctl"@,
{
    let mut out = str_to_chars("/sys/devices/system/cpu/cpu");
    push_all(&mut out, crate::text::dec_chars(n as u64).as_slice());
    push_all(&mut out, str_to_chars("/core_ctl").as_slice());
    chars_to_string(out)
}

pub open spec fn ostr(o: Option<&str>) -> Option<Seq<char>> {
    match o {
        Some(s) => Some(s@),
        None => None,
    }
}

/// A reading trimmed equals `v` (an unreadable node never does).
pub open spec fn reads_as(read: Option<Seq<char>>, v: Seq<char>) -> bool {
    read matches Some(t) && trim(t) == v
}

pub fn read_is(read: Option<&str>, v: &str) -> (r: bool)
    ensures
        r == reads_as(ostr(read), v@),
{
    match read {
        Some(t) => chars_eq(trim_chars(str_to_chars(t).as_slice()).as_slice(), str_to_chars(v).as_slice()),
        None => false,
    }
}

/// The cores of a cluster from its `related_cpus` (or `affected_cpus`)
/// text: the whitespace-separated numbers that parse.
pub fn cluster_cpus(related: &str) -> (r: Vec<u32>)
    ensures
        r@ == parsed_u32_words(words(related@)),
{
    parse_u32_words(related)
}

/// A max_cpus found below its legal floor is what a daemon killed in scene
/// mode left behind: 0, or a number below min_cpus (taken as 1 when min_cpus
/// does not parse). Text that is not a number is kept as found.
pub open spec fn max_cpus_residual_spec(max: Seq<char>, min: Seq<char>) -> bool {
    match parse_unsigned(max, 0xffff_ffff) {
        Some(n) => n == 0 || n < match parse_unsigned(min, 0xffff_ffff) {
            Some(m) => m,
            None => 1,
        },
        None => false,
    }
}

pub fn max_cpus_is_residual(max: &str, min: &str) -> (r: bool)
    ensures
        r == max_cpus_residual_spec(max@, min@),
{
    match parse_u32(str_to_chars(max).as_slice()) {
        Some(n) => {
            let m = match parse_u32(str_to_chars(min).as_slice()) {
                Some(m) => m,
                None => 1,
            };
            n == 0 || n < m
        },
        None => false,
    }
}

/// core_ctl `enable` as read: `1` or `true` (any ASCII case), trimmed.
pub open spec fn enable_spec(read: Option<Seq<char>>) -> Option<bool> {
    match read {
        Some(t) => Some(trim(t) == "1"@ || eq_ignore_ascii_case(trim(t), "true"@)),
        None => None,
    }
}

pub fn parse_enable(read: Option<&str>) -> (r: Option<bool>)
    ensures
        r == enable_spec(ostr(read)),
{
    match read {
        Some(t) => {
            let c = trim_chars(str_to_chars(t).as_slice());
            Some(chars_eq(c.as_slice(), str_to_chars("1").as_slice()) || chars_eq_ignore_ascii_case(
                c.as_slice(),
                str_to_chars("true").as_slice(),
            ))
        },
        None => None,
    }
}

/// A trimmed, non-empty reading.
pub open spec fn nonblank_spec(read: Option<Seq<char>>) -> Option<Seq<char>> {
    match read {
        Some(t) => if trim(t).len() > 0 {
            Some(trim(t))
        } else {
            None
        },
        None => None,
    }
}

pub fn read_nonblank(read: Option<&str>) -> (r: Option<String>)
    ensures
        opt_view(r) == nonblank_spec(ostr(read)),
{
    match read {
        Some(t) => {
            let c = trim_chars(str_to_chars(t).as_slice());
            if c.len() > 0 {
                Some(chars_to_string(c))
            } else {
                None
            }
        },
        None => None,
    }
}

/// After the residual max_cpus was overwritten with the cluster size
/// `fix`: the snapshot is `fix` when the write succeeded and reads back as
/// `fix`; otherwise the node counts as unusable.
pub fn residual_fixed(write_ok: bool, read_back: Option<&str>, fix: &str) -> (r: Option<String>)
    ensures
        opt_view(r) == if write_ok && reads_as(ostr(read_back), fix@) {
            Some(fix@)
        } else {
            None
        },
{
    if write_ok && read_is(read_back, fix) {
        Some(chars_to_string(str_to_chars(fix)))
    } else {
        None
    }
}

/// The offline bookkeeping: each core once.
pub open spec fn distinct_cpus(s: Seq<(u32, String)>) -> bool {
    forall|i: int, j: int| 0 <= i < j < s.len() ==> s[i].0 != s[j].0
}

/// The core online takeover (see the module description).
pub struct CoreCtlManager {
    pub clusters: Vec<CoreCtlCluster>,
    /// Discovery ran (also when it found nothing).
    pub discovered: bool,
    pub state: PowerState,
    /// Cores this daemon wrote offline, with their original `online` value.
    pub offlined: Vec<(u32, String)>,
    /// The cluster whose max_cpus was set to 0 (never together with
    /// `offlined`).
    pub max_cpus_applied: Option<usize>,
    /// The one-time warning about max_cpus was given.
    pub max_cpus_warned: bool,
    /// When max_cpus was last corrected (ms).
    pub max_cpus_reassert_at_ms: Option<u64>,
    /// Every thread of the daemon is pinned to the reserved core.
    pub self_pinned: bool,
    /// The threads actually pinned (only successes).
    pub self_pinned_tids: Vec<i32>,
    /// The little core reserved for the scheduler in scene mode.
    pub reserved_core: Option<usize>,
    /// cpuset groups the reserved core was removed from: (group, original cpus).
    pub reserved_cpusets: Vec<(String, String)>,
    /// The daemon's cpuset group before it moved to the root group.
    pub self_cpuset_group: Option<String>,
}

impl CoreCtlManager {
    /// Indices stay in range and no core is booked twice.
    pub open spec fn wf(&self) -> bool {
        &&& (self.max_cpus_applied matches Some(i) ==> i < self.clusters@.len())
        &&& distinct_cpus(self.offlined@)
    }

    pub fn new() -> (r: CoreCtlManager)
        ensures
            r.wf(),
            r.state == PowerState::Normal,
            !r.discovered,
            r.clusters@.len() == 0,
            r.offlined@.len() == 0,
            r.max_cpus_applied is None,
            r.reserved_core is None,
            !r.self_pinned,
            !r.max_cpus_warned,
            r.max_cpus_reassert_at_ms is None,
            r.self_pinned_tids@.len() == 0,
            r.reserved_cpusets@.len() == 0,
            r.self_cpuset_group is None,
    {
        CoreCtlManager {
            clusters: Vec::new(),
            discovered: false,
            state: PowerState::Normal,
            offlined: Vec::new(),
            max_cpus_applied: None,
            max_cpus_warned: false,
            max_cpus_reassert_at_ms: None,
            self_pinned: false,
            self_pinned_tids: Vec::new(),
            reserved_core: None,
            reserved_cpusets: Vec::new(),
            self_cpuset_group: None,
        }
    }

    /// Something a failed restore left is still pending.
    pub open spec fn pending_spec(&self) -> bool {
        self.offlined@.len() > 0 || self.max_cpus_applied is Some
    }

    pub fn needs_residue_restore(&self) -> (r: bool)
        ensures
            r == self.pending_spec(),
    {
        self.offlined.len() > 0 || self.max_cpus_applied.is_some()
    }

    /// The step of `set_power_state(boost, scenemode)`: a call that asks for
    /// the current state maintains scene mode, retries a pending restore or
    /// does nothing; any other call switches.
    pub fn plan_power_state(&self, boost: bool, scenemode: bool) -> (r: PowerStep)
        ensures
            target_state_spec(boost, scenemode) == self.state ==> (if self.state
                == PowerState::SceneMode {
                r is Maintain
            } else if self.pending_spec() {
                r is RetryRestore
            } else {
                r is Idle
            }),
            target_state_spec(boost, scenemode) != self.state ==> r == PowerStep::Switch(
                target_state_spec(boost, scenemode),
            ),
    {
        let target = target_state(boost, scenemode);
        if target == self.state {
            if target == PowerState::SceneMode {
                PowerStep::Maintain
            } else if self.needs_residue_restore() {
                PowerStep::RetryRestore
            } else {
                PowerStep::Idle
            }
        } else {
            PowerStep::Switch(target)
        }
    }

    /// Records the state entered.
    pub fn set_state(&mut self, s: PowerState)
        requires
            old(self).wf(),
        ensures
            final(self).wf(),
            final(self).state == s,
            final(self).clusters == old(self).clusters,
            final(self).offlined == old(self).offlined,
            final(self).max_cpus_applied == old(self).max_cpus_applied,
    {
        self.state = s;
    }

    /// Adds a discovered cluster.
    pub fn add_cluster(&mut self, c: CoreCtlCluster)
        requires
            old(self).wf(),
        ensures
            final(self).wf(),
            final(self).clusters@ == old(self).clusters@.push(c),
            final(self).state == old(self).state,
            final(self).offlined == old(self).offlined,
            final(self).max_cpus_applied == old(self).max_cpus_applied,
    {
        self.clusters.push(c);
    }

    /// Marks discovery as done; returns whether it had to run.
    pub fn begin_discover(&mut self) -> (r: bool)
        requires
            old(self).wf(),
        ensures
            final(self).wf(),
            r == !old(self).discovered,
            final(self).discovered,
            final(self).clusters == old(self).clusters,
            final(self).state == old(self).state,
            final(self).offlined == old(self).offlined,
            final(self).max_cpus_applied == old(self).max_cpus_applied,
    {
        let r = !self.discovered;
        self.discovered = true;
        r
    }

    /// Boost: every cluster's min_cpus to its size.
    pub fn boost_writes(&self) -> (r: Vec<NodeWrite>)
        ensures
            writes_view(r@) == self.clusters@.map_values(
                |c: CoreCtlCluster| (dir_node(c.dir@, "min_cpus"@), dec(c.cluster_size as nat)),
            ),
    {
        let mut out: Vec<NodeWrite> = Vec::new();
        let mut i: usize = 0;
        while i < self.clusters.len()
            invariant
                i <= self.clusters.len(),
                writes_view(out@) == self.clusters@.take(i as int).map_values(
                    |c: CoreCtlCluster| (dir_node(c.dir@, "min_cpus"@), dec(c.cluster_size as nat)),
                ),
            decreases self.clusters.len() - i,
        {
            let c = &self.clusters[i];
            let w = NodeWrite {
                path: dir_node_string(c.dir.as_str(), "min_cpus"),
                value: u64_to_string(c.cluster_size as u64),
            };
            let ghost before = out@;
            out.push(w);
            proof {
                assert(writes_view(out@) =~= writes_view(before).push(
                    (dir_node(c.dir@, "min_cpus"@), dec(c.cluster_size as nat)),
                ));
                assert(self.clusters@.take(i + 1).map_values(
                    |c: CoreCtlCluster| (dir_node(c.dir@, "min_cpus"@), dec(c.cluster_size as nat)),
                ) =~= self.clusters@.take(i as int).map_values(
                    |c: CoreCtlCluster| (dir_node(c.dir@, "min_cpus"@), dec(c.cluster_size as nat)),
                ).push((dir_node(c.dir@, "min_cpus"@), dec(c.cluster_size as nat))));
            }
            i += 1;
        }
        proof {
            assert(self.clusters@.take(self.clusters.len() as int) =~= self.clusters@);
        }
        out
    }

    /// Leaving boost: every cluster's min_cpus back to its snapshot.
    pub fn restore_min_cpus_writes(&self) -> (r: Vec<NodeWrite>)
        ensures
            writes_view(r@) == self.clusters@.map_values(
                |c: CoreCtlCluster| (dir_node(c.dir@, "min_cpus"@), c.min_cpus@),
            ),
    {
        let mut out: Vec<NodeWrite> = Vec::new();
        let mut i: usize = 0;
        while i < self.clusters.len()
            invariant
                i <= self.clusters.len(),
                writes_view(out@) == self.clusters@.take(i as int).map_values(
                    |c: CoreCtlCluster| (dir_node(c.dir@, "min_cpus"@), c.min_cpus@),
                ),
            decreases self.clusters.len() - i,
        {
            let c = &self.clusters[i];
            let w = NodeWrite {
                path: dir_node_string(c.dir.as_str(), "min_cpus"),
                value: chars_to_string(str_to_chars(c.min_cpus.as_str())),
            };
            let ghost before = out@;
            out.push(w);
            proof {
                assert(writes_view(out@) =~= writes_view(before).push(
                    (dir_node(c.dir@, "min_cpus"@), c.min_cpus@),
                ));
                assert(self.clusters@.take(i + 1).map_values(
                    |c: CoreCtlCluster| (dir_node(c.dir@, "min_cpus"@), c.min_cpus@),
                ) =~= self.clusters@.take(i as int).map_values(
                    |c: CoreCtlCluster| (dir_node(c.dir@, "min_cpus"@), c.min_cpus@),
                ).push((dir_node(c.dir@, "min_cpus"@), c.min_cpus@)));
            }
            i += 1;
        }
        proof {
            assert(self.clusters@.take(self.clusters.len() as int) =~= self.clusters@);
        }
        out
    }

    /// The first step of halting the prime cluster (whose first core is
    /// `prime_first`, the first scene-mode target): nothing to do when the
    /// max_cpus path is in effect; the fallback when there is no prime
    /// cluster, its max_cpus could not be read, or its core_ctl is disabled
    /// (warned once); otherwise the write of `0`.
    pub fn shrink_plan(&mut self, prime_first: Option<u32>) -> (r: ShrinkStep)
        requires
            old(self).wf(),
        ensures
            final(self).wf(),
            final(self).clusters == old(self).clusters,
            final(self).state == old(self).state,
            final(self).offlined == old(self).offlined,
            final(self).max_cpus_applied == old(self).max_cpus_applied,
            old(self).max_cpus_applied is Some ==> r is AlreadyApplied,
            old(self).max_cpus_applied is None ==> match r {
                ShrinkStep::AlreadyApplied => false,
                ShrinkStep::Fallback => prime_first is None || (forall|k: int|
                    0 <= k < old(self).clusters@.len() ==> #[trigger] old(self).clusters@[k].first_cpu
                    != prime_first->0) || ({
                    let k = first_cluster_of(old(self).clusters@, prime_first->0);
                    old(self).clusters@[k].max_cpus is None || old(self).clusters@[k].enable
                        == Some(false)
                }),
                ShrinkStep::Write(idx, path) => prime_first is Some && idx < old(self).clusters@.len() && idx == first_cluster_of(old(self).clusters@, prime_first->0)
                    && old(self).clusters@[idx as int].max_cpus is Some && old(self).clusters@[idx as int].enable
                    != Some(false) && path@ == dir_node(
                    old(self).clusters@[idx as int].dir@,
                    "max_cpus"@,
                ),
            },
    {
        if self.max_cpus_applied.is_some() {
            return ShrinkStep::AlreadyApplied;
        }
        let pf = match prime_first {
            Some(p) => p,
            None => return ShrinkStep::Fallback,
        };
        let mut i: usize = 0;
        while i < self.clusters.len() && self.clusters[i].first_cpu != pf
            invariant
                i <= self.clusters.len(),
                forall|k: int| 0 <= k < i ==> #[trigger] self.clusters@[k].first_cpu != pf,
            decreases self.clusters.len() - i,
        {
            i += 1;
        }
        if i == self.clusters.len() {
            return ShrinkStep::Fallback;
        }
        proof {
            lemma_first_cluster_of(self.clusters@, pf, i as int);
        }
        if self.clusters[i].max_cpus.is_none() || self.clusters[i].enable == Some(false) {
            self.max_cpus_warned = true;
            return ShrinkStep::Fallback;
        }
        let path = dir_node_string(self.clusters[i].dir.as_str(), "max_cpus");
        ShrinkStep::Write(i, path)
    }

    /// The outcome of the max_cpus write of cluster `idx`: a failed write
    /// falls back; a read-back of `0` books the cluster; another value (a
    /// vendor override) falls back; no read-back at all books it too (the
    /// write went out, and the restore then covers it). Returns whether the
    /// max_cpus path is in effect.
    pub fn shrink_result(&mut self, idx: usize, write_ok: bool, read_back: Option<&str>) -> (r: bool)
        requires
            old(self).wf(),
            idx < old(self).clusters@.len(),
        ensures
            final(self).wf(),
            final(self).clusters == old(self).clusters,
            final(self).state == old(self).state,
            final(self).offlined == old(self).offlined,
            r == (write_ok && (read_back is None || reads_as(ostr(read_back), "0"@))),
            r ==> final(self).max_cpus_applied == Some(idx),
            !r ==> final(self).max_cpus_applied == old(self).max_cpus_applied,
    {
        if !write_ok {
            return false;
        }
        match read_back {
            Some(_) => {
                if read_is(read_back, "0") {
                    self.max_cpus_applied = Some(idx);
                    true
                } else {
                    self.max_cpus_warned = true;
                    false
                }
            },
            None => {
                self.max_cpus_applied = Some(idx);
                true
            },
        }
    }

    /// Restoring max_cpus on the way out of scene mode, given the node's
    /// current reading: nothing when the path is not in effect; the booking
    /// is dropped without a write when there is no snapshot or the node
    /// already holds it; otherwise the write of the snapshot.
    pub fn restore_max_cpus_step(&mut self, disk: Option<&str>) -> (r: Option<NodeWrite>)
        requires
            old(self).wf(),
        ensures
            final(self).wf(),
            final(self).clusters == old(self).clusters,
            final(self).state == old(self).state,
            final(self).offlined == old(self).offlined,
            match old(self).max_cpus_applied {
                None => r is None && final(self).max_cpus_applied is None,
                Some(i) => match old(self).clusters@[i as int].max_cpus {
                    None => r is None && final(self).max_cpus_applied is None,
                    Some(snap) => if reads_as(ostr(disk), snap@) {
                        r is None && final(self).max_cpus_applied is None
                    } else {
                        r matches Some(w) && w.path@ == dir_node(
                            old(self).clusters@[i as int].dir@,
                            "max_cpus"@,
                        ) && w.value@ == snap@ && final(self).max_cpus_applied == Some(i)
                    },
                },
            },
    {
        let i = match self.max_cpus_applied {
            Some(i) => i,
            None => return None,
        };
        let snap = match &self.clusters[i].max_cpus {
            Some(s) => chars_to_string(str_to_chars(s.as_str())),
            None => {
                self.max_cpus_applied = None;
                return None;
            },
        };
        if read_is(disk, snap.as_str()) {
            self.max_cpus_applied = None;
            return None;
        }
        Some(NodeWrite { path: dir_node_string(self.clusters[i].dir.as_str(), "max_cpus"), value: snap })
    }

    /// After the snapshot write: the booking is dropped once the node reads
    /// back as the snapshot; otherwise it stays for the next round.
    pub fn restore_max_cpus_verify(&mut self, read_back: Option<&str>)
        requires
            old(self).wf(),
        ensures
            final(self).wf(),
            final(self).clusters == old(self).clusters,
            final(self).state == old(self).state,
            final(self).offlined == old(self).offlined,
            match old(self).max_cpus_applied {
                Some(i) => match old(self).clusters@[i as int].max_cpus {
                    Some(snap) => if reads_as(ostr(read_back), snap@) {
                        final(self).max_cpus_applied is None
                    } else {
                        final(self).max_cpus_applied == old(self).max_cpus_applied
                    },
                    None => final(self).max_cpus_applied is None,
                },
                None => final(self).max_cpus_applied is None,
            },
    {
        let i = match self.max_cpus_applied {
            Some(i) => i,
            None => return,
        };
        let ok = match &self.clusters[i].max_cpus {
            Some(s) => read_is(read_back, s.as_str()),
            None => true,
        };
        if ok {
            self.max_cpus_applied = None;
        }
    }

    /// The fallback path for one target core: skipped when it is already
    /// booked or was not online (`1`) as found; otherwise the original value
    /// to book after writing `0`.
    pub fn offline_candidate(&self, cpu: u32, orig: Option<&str>) -> (r: bool)
        ensures
            r == (!(exists|k: int| 0 <= k < self.offlined@.len() && #[trigger] self.offlined@[k].0
                == cpu) && reads_as(ostr(orig), "1"@)),
    {
        let mut i: usize = 0;
        while i < self.offlined.len()
            invariant
                i <= self.offlined.len(),
                forall|k: int| 0 <= k < i ==> #[trigger] self.offlined@[k].0 != cpu,
            decreases self.offlined.len() - i,
        {
            if self.offlined[i].0 == cpu {
                return false;
            }
            i += 1;
        }
        read_is(orig, "1")
    }

    /// Books a core written offline: only when the write succeeded and the
    /// core reads back `0`, and only once.
    pub fn record_offlined(&mut self, cpu: u32, write_ok: bool, read_back: Option<&str>) -> (r: bool)
        requires
            old(self).wf(),
        ensures
            final(self).wf(),
            final(self).clusters == old(self).clusters,
            final(self).state == old(self).state,
            final(self).max_cpus_applied == old(self).max_cpus_applied,
            r == (write_ok && reads_as(ostr(read_back), "0"@) && !(exists|k: int|
                0 <= k < old(self).offlined@.len() && #[trigger] old(self).offlined@[k].0 == cpu)),
            r ==> final(self).offlined@.len() == old(self).offlined@.len() + 1 && final(self).offlined@.last().0 == cpu && final(self).offlined@.last().1@ == "1"@ && final(self).offlined@.drop_last() == old(self).offlined@,
            !r ==> final(self).offlined == old(self).offlined,
    {
        if !write_ok || !read_is(read_back, "0") {
            return false;
        }
        let mut i: usize = 0;
        while i < self.offlined.len()
            invariant
                i <= self.offlined.len(),
                self.wf(),
                forall|k: int| 0 <= k < i ==> #[trigger] self.offlined@[k].0 != cpu,
            decreases self.offlined.len() - i,
        {
            if self.offlined[i].0 == cpu {
                return false;
            }
            i += 1;
        }
        let ghost before = self.offlined@;
        self.offlined.push((cpu, chars_to_string(str_to_chars("1"))));
        proof {
            assert(self.offlined@.drop_last() =~= before);
            assert forall|a: int, b: int| 0 <= a < b < self.offlined@.len() implies self.offlined@[a].0
                != self.offlined@[b].0 by {
                if b == self.offlined@.len() - 1 {
                    assert(before[a].0 != cpu);
                } else {
                    assert(before[a] == self.offlined@[a]);
                    assert(before[b] == self.offlined@[b]);
                }
            }
        }
        true
    }

    /// Scene-mode upkeep for max_cpus: when the path is in effect and the
    /// node reads as something other than `0`, it is written back to `0`,
    /// at most once per cooldown.
    pub fn reassert_max_cpus(&mut self, read: Option<&str>, now_ms: u64) -> (r: Option<NodeWrite>)
        requires
            old(self).wf(),
        ensures
            final(self).wf(),
            final(self).clusters == old(self).clusters,
            final(self).state == old(self).state,
            final(self).offlined == old(self).offlined,
            final(self).max_cpus_applied == old(self).max_cpus_applied,
            match r {
                Some(w) => old(self).max_cpus_applied matches Some(i) && w.path@ == dir_node(
                    old(self).clusters@[i as int].dir@,
                    "max_cpus"@,
                ) && w.value@ == "0"@ && final(self).max_cpus_reassert_at_ms == Some(now_ms)
                    && (old(self).max_cpus_reassert_at_ms matches Some(t) ==> now_ms >= t
                    + MAX_CPUS_REASSERT_COOLDOWN_MS),
                None => final(self).max_cpus_reassert_at_ms == old(self).max_cpus_reassert_at_ms,
            },
            r is Some <==> (old(self).max_cpus_applied is Some && (read matches Some(t) && trim(t@)
                != "0"@) && match old(self).max_cpus_reassert_at_ms {
                Some(t) => now_ms >= t + MAX_CPUS_REASSERT_COOLDOWN_MS,
                None => true,
            }),
    {
        let i = match self.max_cpus_applied {
            Some(i) => i,
            None => return None,
        };
        let tampered = match read {
            Some(_) => !read_is(read, "0"),
            None => false,
        };
        if !tampered {
            return None;
        }
        let due = match self.max_cpus_reassert_at_ms {
            Some(t) => now_ms >= t && now_ms - t >= MAX_CPUS_REASSERT_COOLDOWN_MS,
            None => true,
        };
        if !due {
            return None;
        }
        self.max_cpus_reassert_at_ms = Some(now_ms);
        self.max_cpus_warned = true;
        Some(NodeWrite {
            path: dir_node_string(self.clusters[i].dir.as_str(), "max_cpus"),
            value: chars_to_string(str_to_chars("0")),
        })
    }

    /// Ends a restore of the offlined cores: the cores whose restore failed
    /// stay booked for the next round. The reserved core, its cpuset
    /// snapshots and the daemon's original group are handed back (for
    /// restoring) only once nothing is pending; the result is `None` while
    /// something still is.
    pub fn finish_restore_online(&mut self, failed: Vec<(u32, String)>) -> (r: Option<
        (Vec<(String, String)>, Option<String>),
    >)
        requires
            old(self).wf(),
            distinct_cpus(failed@),
        ensures
            final(self).wf(),
            final(self).offlined == failed,
            final(self).clusters == old(self).clusters,
            final(self).state == old(self).state,
            final(self).max_cpus_applied == old(self).max_cpus_applied,
            r is Some <==> (failed@.len() == 0 && old(self).max_cpus_applied is None),
            r is Some ==> final(self).reserved_core is None && final(self).reserved_cpusets@.len()
                == 0 && final(self).self_cpuset_group is None,
            r is None ==> final(self).reserved_core == old(self).reserved_core,
    {
        self.offlined = failed;
        if self.offlined.len() == 0 && self.max_cpus_applied.is_none() {
            let mut sets: Vec<(String, String)> = Vec::new();
            std::mem::swap(&mut sets, &mut self.reserved_cpusets);
            let group = self.self_cpuset_group.take();
            self.reserved_core = None;
            Some((sets, group))
        } else {
            None
        }
    }

    /// The core the daemon pins itself to in scene mode, when a pin is due
    /// (a core is reserved and not every thread is pinned yet).
    pub fn pin_due(&self) -> (r: Option<usize>)
        ensures
            r == if self.self_pinned {
                None
            } else {
                self.reserved_core
            },
    {
        if self.self_pinned {
            None
        } else {
            self.reserved_core
        }
    }

    /// Records a pinning round (`results`: each thread and whether its pin
    /// succeeded): pinned only when all succeeded; the successes are kept
    /// for unpinning.
    pub fn record_pins(&mut self, results: &Vec<(i32, bool)>)
        requires
            old(self).wf(),
        ensures
            final(self).wf(),
            final(self).self_pinned == (forall|k: int| 0 <= k < results@.len() ==> #[trigger] results@[k].1),
            final(self).self_pinned_tids@ == pinned_ok(results@),
            final(self).clusters == old(self).clusters,
            final(self).offlined == old(self).offlined,
            final(self).max_cpus_applied == old(self).max_cpus_applied,
            final(self).state == old(self).state,
    {
        let mut tids: Vec<i32> = Vec::new();
        let mut all = true;
        let mut i: usize = 0;
        while i < results.len()
            invariant
                i <= results.len(),
                tids@ == pinned_ok(results@.take(i as int)),
                all == (forall|k: int| 0 <= k < i ==> #[trigger] results@[k].1),
            decreases results.len() - i,
        {
            proof {
                assert(results@.take(i + 1).drop_last() =~= results@.take(i as int));
                assert(results@.take(i + 1).last() == results@[i as int]);
            }
            if results[i].1 {
                tids.push(results[i].0);
            } else {
                all = false;
            }
            i += 1;
        }
        proof {
            assert(results@.take(results.len() as int) =~= results@);
        }
        self.self_pinned = all;
        self.self_pinned_tids = tids;
    }

    /// Starts an unpin: hands back the threads to restore and clears the
    /// pinned state; threads whose restore fails for a reason other than
    /// having exited are given back with `keep_unpin_retry`.
    pub fn take_pinned(&mut self) -> (r: Vec<i32>)
        requires
            old(self).wf(),
        ensures
            final(self).wf(),
            r == old(self).self_pinned_tids,
            final(self).self_pinned_tids@.len() == 0,
            !final(self).self_pinned,
            final(self).clusters == old(self).clusters,
            final(self).offlined == old(self).offlined,
            final(self).max_cpus_applied == old(self).max_cpus_applied,
            final(self).state == old(self).state,
    {
        let mut t: Vec<i32> = Vec::new();
        std::mem::swap(&mut t, &mut self.self_pinned_tids);
        self.self_pinned = false;
        t
    }

    /// A thread whose unpin failed (`exited`: it no longer exists) stays on
    /// the list to be retried, unless it exited.
    pub fn keep_unpin_retry(&mut self, tid: i32, exited: bool)
        requires
            old(self).wf(),
        ensures
            final(self).wf(),
            final(self).self_pinned_tids@ == if exited {
                old(self).self_pinned_tids@
            } else {
                old(self).self_pinned_tids@.push(tid)
            },
            final(self).self_pinned == old(self).self_pinned,
            final(self).clusters == old(self).clusters,
            final(self).offlined == old(self).offlined,
            final(self).max_cpus_applied == old(self).max_cpus_applied,
            final(self).state == old(self).state,
    {
        if !exited {
            self.self_pinned_tids.push(tid);
        }
    }

    /// Records the core reserved in scene mode and the daemon's original
    /// cpuset group.
    pub fn reserve_core(&mut self, core: usize, self_group: Option<String>)
        requires
            old(self).wf(),
        ensures
            final(self).wf(),
            final(self).reserved_core == Some(core),
            opt_view(final(self).self_cpuset_group) == opt_view(self_group),
            final(self).clusters == old(self).clusters,
            final(self).offlined == old(self).offlined,
            final(self).max_cpus_applied == old(self).max_cpus_applied,
            final(self).state == old(self).state,
    {
        self.reserved_core = Some(core);
        self.self_cpuset_group = self_group;
    }

    /// The start-up reset after every core was forced online: nothing is
    /// booked any more and the state is normal.
    pub fn reset_after_force_online(&mut self)
        requires
            old(self).wf(),
        ensures
            final(self).wf(),
            final(self).state == PowerState::Normal,
            final(self).offlined@.len() == 0,
            final(self).max_cpus_applied is None,
            final(self).max_cpus_reassert_at_ms is None,
            final(self).clusters == old(self).clusters,
    {
        self.max_cpus_applied = None;
        self.state = PowerState::Normal;
        self.max_cpus_reassert_at_ms = None;
        self.offlined = Vec::new();
    }

    /// Release at shutdown: boost gives back every cluster's `min_cpus`
    /// snapshot (the writes returned), scene mode restores what it took
    /// offline (`restore_online`), normal does nothing; the manager is
    /// normal afterwards, so a second release does nothing.
    pub fn release(&mut self) -> (r: ReleaseStep)
        requires
            old(self).wf(),
        ensures
            final(self).wf(),
            final(self).state == PowerState::Normal,
            final(self).clusters == old(self).clusters,
            final(self).offlined == old(self).offlined,
            final(self).max_cpus_applied == old(self).max_cpus_applied,
            match old(self).state {
                PowerState::Normal => r is Nothing,
                PowerState::Boost => r matches ReleaseStep::RestoreMinCpus(ws) && writes_view(ws@)
                    == old(self).clusters@.map_values(
                    |c: CoreCtlCluster| (dir_node(c.dir@, "min_cpus"@), c.min_cpus@),
                ),
                PowerState::SceneMode => r is RestoreOnline,
            },
    {
        let r = match self.state {
            PowerState::Normal => ReleaseStep::Nothing,
            PowerState::Boost => ReleaseStep::RestoreMinCpus(self.restore_min_cpus_writes()),
            PowerState::SceneMode => ReleaseStep::RestoreOnline,
        };
        self.state = PowerState::Normal;
        r
    }

    /// The steps of a switch to `target`, in order: leave the current state
    /// (boost: give back the `min_cpus` snapshots; scene mode: restore what
    /// it took offline), then bring back whatever a failed restore left
    /// (only while `needs_residue_restore` holds at that point), then enter
    /// the target (boost: discover and raise `min_cpus`; scene mode: halt
    /// the prime cluster and reserve a little core).
    pub fn switch_plan(&self, target: PowerState) -> (r: Vec<SwitchAction>)
        ensures
            r@ == exit_actions(self.state) + seq![SwitchAction::RestorePendingResidue] + enter_actions(
                target,
            ),
    {
        let mut out: Vec<SwitchAction> = Vec::new();
        match self.state {
            PowerState::Boost => out.push(SwitchAction::RestoreMinCpus),
            PowerState::SceneMode => out.push(SwitchAction::RestoreOnline),
            PowerState::Normal => {},
        }
        out.push(SwitchAction::RestorePendingResidue);
        match target {
            PowerState::Boost => out.push(SwitchAction::EnterBoost),
            PowerState::SceneMode => out.push(SwitchAction::EnterSceneMode),
            PowerState::Normal => {},
        }
        proof {
            assert(out@ =~= exit_actions(self.state) + seq![SwitchAction::RestorePendingResidue]
                + enter_actions(target));
        }
        out
    }
}

/// What a release undoes.
pub enum ReleaseStep {
    /// Normal: nothing.
    Nothing,
    /// Boost: these `min_cpus` writes.
    RestoreMinCpus(Vec<NodeWrite>),
    /// Scene mode: the restore of what it took offline.
    RestoreOnline,
}

/// One step of a power-state switch.
#[derive(PartialEq, Eq, Structural, Clone, Copy, Debug)]
pub enum SwitchAction {
    /// Write back every cluster's `min_cpus` snapshot.
    RestoreMinCpus,
    /// Restore max_cpus and the cores scene mode took offline.
    RestoreOnline,
    /// Restore again when something is still pending
    /// (`needs_residue_restore`).
    RestorePendingResidue,
    /// Discover the clusters and raise every `min_cpus`.
    EnterBoost,
    /// Halt the prime cluster and reserve a little core.
    EnterSceneMode,
}

/// The steps that leave a state.
pub open spec fn exit_actions(s: PowerState) -> Seq<SwitchAction> {
    match s {
        PowerState::Boost => seq![SwitchAction::RestoreMinCpus],
        PowerState::SceneMode => seq![SwitchAction::RestoreOnline],
        PowerState::Normal => Seq::empty(),
    }
}

/// The steps that enter a state.
pub open spec fn enter_actions(s: PowerState) -> Seq<SwitchAction> {
    match s {
        PowerState::Boost => seq![SwitchAction::EnterBoost],
        PowerState::SceneMode => seq![SwitchAction::EnterSceneMode],
        PowerState::Normal => Seq::empty(),
    }
}

/// The little core reserved for the daemon in scene mode: the last little
/// core; none without little cores.
pub fn reserved_core_for(r: &CoreGroupRanges) -> (c: Option<usize>)
    ensures
        c == if r.little.start < r.little.end {
            Some((r.little.end - 1) as usize)
        } else {
            None::<usize>
        },
{
    if r.little.start < r.little.end {
        Some(r.little.end - 1)
    } else {
        None
    }
}

/// The first cluster whose first core is `cpu`.
pub open spec fn first_cluster_of(cs: Seq<CoreCtlCluster>, cpu: u32) -> int {
    choose|k: int| 0 <= k < cs.len() && cs[k].first_cpu == cpu && forall|j: int| 0 <= j < k ==> #[trigger] cs[j].first_cpu != cpu
}

proof fn lemma_first_cluster_of(cs: Seq<CoreCtlCluster>, cpu: u32, i: int)
    requires
        0 <= i < cs.len(),
        cs[i].first_cpu == cpu,
        forall|j: int| 0 <= j < i ==> #[trigger] cs[j].first_cpu != cpu,
    ensures
        first_cluster_of(cs, cpu) == i,
{
    let k = first_cluster_of(cs, cpu);
    if k < i {
        assert(cs[k].first_cpu != cpu);
    } else if k > i {
        assert(cs[i].first_cpu != cpu);
    }
}

/// The threads whose pin succeeded, in order.
pub open spec fn pinned_ok(rs: Seq<(i32, bool)>) -> Seq<i32>
    decreases rs.len(),
{
    if rs.len() == 0 {
        Seq::empty()
    } else {
        let p = pinned_ok(rs.drop_last());
        if rs.last().1 {
            p.push(rs.last().0)
        } else {
            p
        }
    }
}

/// A core restored to its original `online` value counts as restored only
/// when it reads back as that value.
pub fn restore_readback_ok(read_back: Option<&str>, orig: &str) -> (r: bool)
    ensures
        r == reads_as(ostr(read_back), orig@),
{
    read_is(read_back, orig)
}

/// A core of the layout needs forcing online at start-up only when it
/// reads as something other than `1` (unreadable nodes are skipped).
pub fn force_online_needed(read: Option<&str>) -> (r: bool)
    ensures
        r == (read is Some && !reads_as(ostr(read), "1"@)),
{
    match read {
        Some(_) => !read_is(read, "1"),
        None => false,
    }
}

/// A booked core taken back online by someone else while in scene mode:
/// it reads as something other than `0` (unreadable nodes are skipped).
pub fn online_tampered(read: Option<&str>) -> (r: bool)
    ensures
        r == (read is Some && !reads_as(ostr(read), "0"@)),
{
    match read {
        Some(_) => !read_is(read, "0"),
        None => false,
    }
}

/// Entering a state different from the current one always goes through a
/// switch, and a release always ends in the normal state.
pub proof fn law_switch_changes_state(s: PowerState, boost: bool, scenemode: bool)
    ensures
        target_state_spec(boost, scenemode) == PowerState::Boost <==> boost,
        target_state_spec(boost, scenemode) == PowerState::SceneMode <==> (!boost && scenemode),
{
}

} // verus!
