//! Decisions of the scheduler loop around modes: which takeover a mode
//! gets, how the lab modes drive the governor and GPU guards, the affinity
//! and core_ctl plan, policy discovery, the battery state and the touch
//! boost window.
use vstd::prelude::*;
use crate::common::DaemonFlags;
use crate::lists::{is_special_mode, is_special_mode_allowed, lookup_spec, modes_view, SpecialTunedEntry};
use crate::text::{
    ascii_lower, chars_eq, chars_starts_with, chars_to_string, parse_i32, parse_i32_spec,
    starts_with, str_eq, str_to_chars, sub_chars, to_ascii_lower, trim, trim_chars,
};

verus! {

// ---------------------------------------------------------------------------
// [battery]
// ---------------------------------------------------------------------------

pub open spec fn lower_all(s: Seq<char>) -> Seq<char> {
    s.map_values(|c: char| ascii_lower(c))
}

/// The battery state as logged: `charging`, `discharging`, `full` or
/// `not_charging` from the status node (trimmed, ASCII case ignored);
/// `-` when the node is missing or holds anything else.
pub open spec fn charge_state_spec(read: Option<Seq<char>>) -> Seq<char> {
    match read {
        None => "-"@,
        Some(t) => {
            let l = lower_all(trim(t));
            if l == "charging"@ {
                "charging"@
            } else if l == "discharging"@ {
                "discharging"@
            } else if l == "full"@ {
                "full"@
            } else if l == "not charging"@ {
                "not_charging"@
            } else {
                "-"@
            }
        },
    }
}

/// A status value was read but not recognised.
pub open spec fn charge_state_unknown(read: Option<Seq<char>>) -> bool {
    read is Some && charge_state_spec(read) == "-"@
}

fn lower_chars(s: &[char]) -> (r: Vec<char>)
    ensures
        r@ == lower_all(s@),
{
    let mut out: Vec<char> = Vec::new();
    let mut i: usize = 0;
    while i < s.len()
        invariant
            i <= s.len(),
            out@ == lower_all(s@.take(i as int)),
        decreases s.len() - i,
    {
        out.push(to_ascii_lower(s[i]));
        i += 1;
        proof {
            assert(lower_all(s@.take(i as int)) =~= lower_all(s@.take(i - 1)).push(ascii_lower(s@[i - 1])));
        }
    }
    proof {
        assert(s@.take(s.len() as int) =~= s@);
    }
    out
}

/// The normalised battery state of a status reading.
pub fn battery_charge_state(read: Option<&str>) -> (r: &'static str)
    ensures
        r@ == charge_state_spec(match read {
            Some(t) => Some(t@),
            None => None,
        }),
{
    proof {
        reveal_strlit("-");
        reveal_strlit("charging");
        reveal_strlit("discharging");
        reveal_strlit("full");
        reveal_strlit("not charging");
        reveal_strlit("not_charging");
    }
    let t = match read {
        Some(t) => t,
        None => return "-",
    };
    let l = lower_chars(trim_chars(str_to_chars(t).as_slice()).as_slice());
    if chars_eq(l.as_slice(), str_to_chars("charging").as_slice()) {
        "charging"
    } else if chars_eq(l.as_slice(), str_to_chars("discharging").as_slice()) {
        "discharging"
    } else if chars_eq(l.as_slice(), str_to_chars("full").as_slice()) {
        "full"
    } else if chars_eq(l.as_slice(), str_to_chars("not charging").as_slice()) {
        "not_charging"
    } else {
        "-"
    }
}

/// The once-per-episode warning about an unknown battery status.
pub struct BatteryStatusWarn {
    pub warned: bool,
}

impl BatteryStatusWarn {
    pub fn new() -> (r: BatteryStatusWarn)
        ensures
            !r.warned,
    {
        BatteryStatusWarn { warned: false }
    }

    /// Reads the state and tells whether to warn about it: an unknown value
    /// is warned about once until a known value re-arms the warning; a
    /// missing node neither warns nor re-arms.
    pub fn observe(&mut self, read: Option<&str>) -> (r: (&'static str, bool))
        ensures
            ({
                let rd = match read {
                    Some(t) => Some(t@),
                    None => None,
                };
                &&& r.0@ == charge_state_spec(rd)
                &&& r.1 == (charge_state_unknown(rd) && !old(self).warned)
                &&& final(self).warned == if charge_state_spec(rd) != "-"@ {
                    false
                } else if charge_state_unknown(rd) {
                    true
                } else {
                    old(self).warned
                }
            }),
    {
        proof {
            reveal_strlit("-");
        }
        let s = battery_charge_state(read);
        let dash = str_eq(s, "-");
        let mut warn = false;
        if dash && read.is_some() {
            warn = !self.warned;
            self.warned = true;
        }
        if !dash {
            self.warned = false;
        }
        (s, warn)
    }
}

// ---------------------------------------------------------------------------
// [policies]
// ---------------------------------------------------------------------------

/// A cpufreq policy and its boost frequencies (kHz).
pub struct CpuPolicy {
    pub id: i32,
    pub boost_frequencies: Vec<u32>,
}

/// The policy id of a directory name `policy{N}` (N parsed as `i32`).
pub open spec fn policy_id_spec(name: Seq<char>) -> Option<i32> {
    if starts_with(name, "policy"@) {
        match parse_i32_spec(name.skip(6)) {
            Some(v) => Some(v as i32),
            None => None,
        }
    } else {
        None
    }
}

/// The id of a cpufreq directory entry `policy{id}`.
pub fn policy_id_of(name: &str) -> (r: Option<i32>)
    ensures
        r == policy_id_spec(name@),
{
    let c = str_to_chars(name);
    let p = str_to_chars("policy");
    proof {
        reveal_strlit("policy");
    }
    if !chars_starts_with(c.as_slice(), p.as_slice()) {
        return None;
    }
    let rest = sub_chars(c.as_slice(), 6, c.len());
    proof {
        assert(rest@ =~= name@.skip(6));
    }
    parse_i32(rest.as_slice())
}

/// The ids of the policy directories, in the order listed.
pub open spec fn listed_ids(names: Seq<Seq<char>>) -> Seq<i32>
    decreases names.len(),
{
    if names.len() == 0 {
        Seq::empty()
    } else {
        match policy_id_spec(names.last()) {
            Some(id) => listed_ids(names.drop_last()).push(id),
            None => listed_ids(names.drop_last()),
        }
    }
}

pub open spec fn nondecreasing(s: Seq<i32>) -> bool {
    forall|i: int, j: int| 0 <= i < j < s.len() ==> s[i] <= s[j]
}

proof fn lemma_insert_multiset(s: Seq<i32>, k: int, x: i32)
    requires
        0 <= k <= s.len(),
    ensures
        s.insert(k, x).to_multiset() =~= s.to_multiset().insert(x),
{
    broadcast use vstd::seq_lib::group_to_multiset_ensures;

    let t = s.insert(k, x);
    assert(t.remove(k) =~= s);
    assert(t[k] == x);
    assert(t.to_multiset().count(x) > 0);
}

/// The ids of the `policy{N}` entries of the cpufreq directory, in
/// increasing order (names that do not parse are skipped).
pub fn policy_ids(names: &Vec<String>) -> (r: Vec<i32>)
    ensures
        nondecreasing(r@),
        r@.to_multiset() == listed_ids(names@.map_values(|s: String| s@)).to_multiset(),
{
    let ghost gv = names@.map_values(|s: String| s@);
    let mut out: Vec<i32> = Vec::new();
    let mut i: usize = 0;
    while i < names.len()
        invariant
            i <= names.len(),
            gv == names@.map_values(|s: String| s@),
            nondecreasing(out@),
            out@.to_multiset() == listed_ids(gv.take(i as int)).to_multiset(),
        decreases names.len() - i,
    {
        proof {
            assert(gv.take(i + 1).drop_last() =~= gv.take(i as int));
            assert(gv.take(i + 1).last() == names@[i as int]@);
        }
        match policy_id_of(names[i].as_str()) {
            Some(id) => {
                let mut k: usize = 0;
                while k < out.len() && out[k] <= id
                    invariant
                        k <= out.len(),
                        forall|j: int| 0 <= j < k ==> out@[j] <= id,
                    decreases out.len() - k,
                {
                    k += 1;
                }
                let ghost before = out@;
                out.insert(k, id);
                proof {
                    lemma_insert_multiset(before, k as int, id);
                    broadcast use vstd::seq_lib::group_to_multiset_ensures;
                    assert(listed_ids(gv.take(i + 1)) == listed_ids(gv.take(i as int)).push(id));
                    assert forall|a: int, b: int| 0 <= a < b < out@.len() implies out@[a] <= out@[b] by {
                        if b < k {
                            assert(out@[a] == before[a] && out@[b] == before[b]);
                        } else if b == k {
                            assert(out@[a] == before[a]);
                        } else if a == k {
                            assert(out@[b] == before[b - 1]);
                            if k < before.len() {
                                assert(before[k as int] > id);
                                assert(before[k as int] <= before[b - 1]);
                            }
                        } else if a < k {
                            assert(out@[a] == before[a] && out@[b] == before[b - 1]);
                        } else {
                            assert(out@[a] == before[a - 1] && out@[b] == before[b - 1]);
                        }
                    }
                }
            },
            None => {
                proof {
                    assert(listed_ids(gv.take(i + 1)) == listed_ids(gv.take(i as int)));
                }
            },
        }
        i += 1;
    }
    proof {
        assert(gv.take(names.len() as int) =~= gv);
    }
    out
}

// ---------------------------------------------------------------------------
// [gpu_snapshot]
// ---------------------------------------------------------------------------

/// Milliseconds between two GPU frequency snapshots.
pub const GPU_SNAP_INTERVAL_MS: u64 = 10000;

/// The throttle of the GPU frequency snapshot.
pub struct GpuSnapClock {
    pub last_ms: u64,
}

impl GpuSnapClock {
    pub fn new() -> (r: GpuSnapClock)
        ensures
            r.last_ms == 0,
    {
        GpuSnapClock { last_ms: 0 }
    }

    /// A snapshot is due once ten seconds passed since the last one; a due
    /// snapshot restarts the interval.
    pub fn gpu_snapshot_due(&mut self, now_ms: u64) -> (r: bool)
        ensures
            r == (now_ms >= old(self).last_ms + GPU_SNAP_INTERVAL_MS),
            final(self).last_ms == if r {
                now_ms
            } else {
                old(self).last_ms
            },
    {
        if now_ms.saturating_sub(self.last_ms) < GPU_SNAP_INTERVAL_MS {
            return false;
        }
        self.last_ms = now_ms;
        true
    }
}

// ---------------------------------------------------------------------------
// [mode_takeover]
// ---------------------------------------------------------------------------

/// A special mode: some whitelist entry lists it and the lab has not turned
/// special tuning off.
pub open spec fn special_mode_spec(flags: DaemonFlags, list: Seq<SpecialTunedEntry>, mode: Seq<char>) -> bool {
    !flags.lab_special_tuned_disabled && exists|k: int|
        0 <= k < list.len() && #[trigger] modes_view(list[k].modes).contains(mode)
}

/// Boost-class modes (affinity narrowed, big cores kept online): boost,
/// vector and the special modes.
pub fn is_boost_mode(flags: &DaemonFlags, list: &[SpecialTunedEntry], mode: &str) -> (r: bool)
    ensures
        r == (mode@ == "boost"@ || mode@ == "vector"@ || special_mode_spec(*flags, list@, mode@)),
{
    str_eq(mode, "boost") || str_eq(mode, "vector") || is_special_mode(flags, list, mode)
}

/// The boost-affinity switch of a mode: a special mode's own profile
/// setting (`profile_boost_affinity`); true for any other mode.
pub fn tuned_boost_affinity(
    flags: &DaemonFlags,
    list: &[SpecialTunedEntry],
    mode: &str,
    profile_boost_affinity: bool,
) -> (r: bool)
    ensures
        r == if special_mode_spec(*flags, list@, mode@) {
            profile_boost_affinity
        } else {
            true
        },
{
    if is_special_mode(flags, list, mode) {
        profile_boost_affinity
    } else {
        true
    }
}

/// The guard actions that keep the governor, GPU and fast lock in line
/// with a (lab) mode.
pub struct LabSync {
    pub activate_governor: bool,
    pub release_governor: bool,
    pub lock_gpu: bool,
    pub release_gpu: bool,
    pub init_fast_lock: bool,
}

/// contingency: performance governor, GPU locked and every core locked at
/// its maximum; babel: performance governor only (GPU released); any other
/// mode: governor and GPU released (the fast lock is left alone). Only what
/// is not already in that state is acted on.
pub fn sync_lab_governor_gpu(
    mode: &str,
    governor_active: bool,
    gpu_active: bool,
    fast_active: bool,
) -> (r: LabSync)
    ensures
        mode@ == "contingency"@ ==> r == (LabSync {
            activate_governor: !governor_active,
            release_governor: false,
            lock_gpu: !gpu_active,
            release_gpu: false,
            init_fast_lock: !fast_active,
        }),
        mode@ == "babel"@ ==> r == (LabSync {
            activate_governor: !governor_active,
            release_governor: false,
            lock_gpu: false,
            release_gpu: gpu_active,
            init_fast_lock: false,
        }),
        mode@ != "contingency"@ && mode@ != "babel"@ ==> r == (LabSync {
            activate_governor: false,
            release_governor: governor_active,
            lock_gpu: false,
            release_gpu: gpu_active,
            init_fast_lock: false,
        }),
{
    proof {
        reveal_strlit("contingency");
        reveal_strlit("babel");
        assert("contingency"@.len() != "babel"@.len());
    }
    if str_eq(mode, "contingency") {
        LabSync {
            activate_governor: !governor_active,
            release_governor: false,
            lock_gpu: !gpu_active,
            release_gpu: false,
            init_fast_lock: !fast_active,
        }
    } else if str_eq(mode, "babel") {
        LabSync {
            activate_governor: !governor_active,
            release_governor: false,
            lock_gpu: false,
            release_gpu: gpu_active,
            init_fast_lock: false,
        }
    } else {
        LabSync {
            activate_governor: false,
            release_governor: governor_active,
            lock_gpu: false,
            release_gpu: gpu_active,
            init_fast_lock: false,
        }
    }
}

/// Who takes over the frequencies in a mode.
#[derive(PartialEq, Eq, Structural, Clone, Copy)]
pub enum Takeover {
    /// The special-tuning governor (the CLG when its init fails).
    Special,
    /// The fast lock (CLG and special tuning released).
    Vector,
    /// The CLG with the mode's section (special tuning and fast lock
    /// released).
    Clg,
}

/// What the CLG does in a CLG takeover.
#[derive(PartialEq, Eq, Structural, Clone, Copy)]
pub enum ClgStep {
    /// Already running: reload its parameters.
    Reload,
    /// Not running: start it.
    Init,
    /// The mode disables the CLG: release it.
    Release,
}

/// Who takes the frequencies over in a mode: special tuning for a special
/// mode, the fast lock for vector, the CLG otherwise.
pub fn mode_takeover(flags: &DaemonFlags, list: &[SpecialTunedEntry], mode: &str) -> (r: Takeover)
    ensures
        r == if special_mode_spec(*flags, list@, mode@) {
            Takeover::Special
        } else if mode@ == "vector"@ {
            Takeover::Vector
        } else {
            Takeover::Clg
        },
{
    if is_special_mode(flags, list, mode) {
        Takeover::Special
    } else if str_eq(mode, "vector") {
        Takeover::Vector
    } else {
        Takeover::Clg
    }
}

/// Who takes the frequencies over when scheduling resumes after a stop.
#[derive(PartialEq, Eq, Structural, Clone, Copy)]
pub enum ResumeTakeover {
    /// vector: the fast lock.
    Fast,
    /// fas: the frame-aware governor (the CLG `default` section when it
    /// cannot start).
    Fas,
    /// A special mode the foreground package may use: special tuning.
    Special,
    /// A special mode the foreground package may not use: no takeover.
    Nothing,
    /// Any other mode: the CLG with the mode's section.
    Clg,
}

/// The takeover rebuilt on resume: vector and fas first, then a special
/// mode (checked again against the live foreground package), else the CLG.
pub fn resume_takeover(flags: &DaemonFlags, list: &[SpecialTunedEntry], pkg: &str, mode: &str) -> (r: ResumeTakeover)
    ensures
        r == if mode@ == "vector"@ {
            ResumeTakeover::Fast
        } else if mode@ == "fas"@ {
            ResumeTakeover::Fas
        } else if special_mode_spec(*flags, list@, mode@) {
            if match lookup_spec(flags.lab_special_tuned_disabled, list@, pkg@) {
                Some(k) => modes_view(list@[k].modes).contains(mode@),
                None => false,
            } {
                ResumeTakeover::Special
            } else {
                ResumeTakeover::Nothing
            }
        } else {
            ResumeTakeover::Clg
        },
{
    if str_eq(mode, "vector") {
        ResumeTakeover::Fast
    } else if str_eq(mode, "fas") {
        ResumeTakeover::Fas
    } else if is_special_mode(flags, list, mode) {
        if is_special_mode_allowed(flags, list, pkg, mode) {
            ResumeTakeover::Special
        } else {
            ResumeTakeover::Nothing
        }
    } else {
        ResumeTakeover::Clg
    }
}

/// What the CLG does with a section: release it when disabled, reload a
/// running CLG, start one otherwise.
pub fn clg_step(enabled: bool, active: bool) -> (r: ClgStep)
    ensures
        r == if !enabled {
            ClgStep::Release
        } else if active {
            ClgStep::Reload
        } else {
            ClgStep::Init
        },
{
    if !enabled {
        ClgStep::Release
    } else if active {
        ClgStep::Reload
    } else {
        ClgStep::Init
    }
}

/// The affinity and core_ctl layout of a round.
pub enum AffinityPlan {
    /// contingency / babel: the static lab grouping (when affinity is on;
    /// otherwise it is taken back), core_ctl normal.
    Lab { apply: bool },
    /// Scene mode: affinity released when held, core_ctl normal.
    Scene,
    /// The regular layout: boost or not, the top-app uclamp.max override
    /// (`None`: left to the FAS hook), and core_ctl boost.
    Apply { boost: bool, uclamp_override: Option<bool>, corectl_boost: bool },
}

/// The layout of a round: lab modes and scene mode first; otherwise boost
/// for boost-class modes whose affinity switch is on, and for fas.
pub fn affinity_plan(
    mode: &str,
    affinity_enabled: bool,
    corectl_enabled: bool,
    scenemode_offline: bool,
    boost_class: bool,
    boost_affinity: bool,
    special: bool,
) -> (r: AffinityPlan)
    ensures
        (mode@ == "contingency"@ || mode@ == "babel"@) ==> r == (AffinityPlan::Lab {
            apply: affinity_enabled,
        }),
        !(mode@ == "contingency"@ || mode@ == "babel"@) && scenemode_offline ==> r is Scene,
        !(mode@ == "contingency"@ || mode@ == "babel"@) && !scenemode_offline ==> ({
            let boost = (boost_class && boost_affinity) || mode@ == "fas"@;
            r == (AffinityPlan::Apply {
                boost,
                uclamp_override: if mode@ == "fas"@ {
                    None
                } else {
                    Some(special && boost_affinity)
                },
                corectl_boost: corectl_enabled && boost,
            })
        }),
{
    if str_eq(mode, "contingency") || str_eq(mode, "babel") {
        return AffinityPlan::Lab { apply: affinity_enabled };
    }
    if scenemode_offline {
        return AffinityPlan::Scene;
    }
    let fas = str_eq(mode, "fas");
    let boost = (boost_class && boost_affinity) || fas;
    let uclamp_override = if fas {
        None
    } else {
        Some(special && boost_affinity)
    };
    AffinityPlan::Apply { boost, uclamp_override, corectl_boost: corectl_enabled && boost }
}

// ---------------------------------------------------------------------------
// [touch]
// ---------------------------------------------------------------------------

/// The touch-boost window shared with the frequency workers: the floor (the
/// bit pattern of an `f32` ratio), its length and the (32-bit wrapped) time
/// it was set, in ms.
pub struct AtomicTouchState {
    pub floor_bits: u32,
    pub duration_ms: u32,
    pub set_epoch_ms: u32,
}

impl AtomicTouchState {
    /// No window (floor 0.0).
    pub fn new() -> (r: AtomicTouchState)
        ensures
            r.floor_bits == 0,
            r.duration_ms == 0,
            r.set_epoch_ms == 0,
    {
        AtomicTouchState { floor_bits: 0, duration_ms: 0, set_epoch_ms: 0 }
    }

    /// Opens a window at `epoch_ms` (kept to its low 32 bits, as is the
    /// length).
    pub fn set(&mut self, floor_bits: u32, duration_ms: u64, epoch_ms: u64)
        ensures
            final(self).floor_bits == floor_bits,
            final(self).duration_ms == duration_ms as u32,
            final(self).set_epoch_ms == epoch_ms as u32,
    {
        self.duration_ms = duration_ms as u32;
        self.floor_bits = floor_bits;
        self.set_epoch_ms = epoch_ms as u32;
    }

    /// The floor while the window is open (time measured with 32-bit
    /// wrapping), 0 (the bits of 0.0) when no window was ever set or it has
    /// ended.
    pub fn get_floor_bits(&self, now_ms: u64) -> (r: u32)
        ensures
            r == floor_at(self.floor_bits, self.duration_ms, self.set_epoch_ms, now_ms),
    {
        if self.set_epoch_ms == 0 {
            return 0;
        }
        let now = now_ms as u32;
        let elapsed = now.wrapping_sub(self.set_epoch_ms);
        proof {
            let s = self.set_epoch_ms;
            assert(elapsed as int == (now as int - s as int + 0x1_0000_0000) % 0x1_0000_0000) by {
                if now >= s {
                    assert(elapsed == now - s);
                } else {
                    assert(elapsed == now - s + 0x1_0000_0000);
                }
            }
        }
        if elapsed < self.duration_ms {
            self.floor_bits
        } else {
            0
        }
    }
}

/// The floor a window gives at `now_ms`.
pub open spec fn floor_at(floor_bits: u32, duration_ms: u32, set_ms: u32, now_ms: u64) -> u32 {
    if set_ms == 0 {
        0
    } else if ((now_ms as u32) as int - set_ms as int + 0x1_0000_0000) % 0x1_0000_0000 < duration_ms {
        floor_bits
    } else {
        0
    }
}

/// A window opened at `t` (whose low 32 bits are not 0) with a length that
/// is not 0 gives its floor at `t` itself, and no floor once its length has
/// passed (within the 32-bit wrap).
pub proof fn law_touch_window(floor_bits: u32, duration_ms: u64, t: u64, later: u64)
    requires
        t as u32 != 0,
        duration_ms as u32 > 0,
        t <= later,
        later - t < 0x1_0000_0000,
        later - t >= duration_ms as u32,
    ensures
        floor_at(floor_bits, duration_ms as u32, t as u32, t) == floor_bits,
        floor_at(floor_bits, duration_ms as u32, t as u32, later) == 0,
{
    assert(((later as u32) as int - (t as u32) as int + 0x1_0000_0000) % 0x1_0000_0000 == later - t)
        by (bit_vector)
        requires
            t <= later,
            later - t < 0x1_0000_0000,
    ;
}


// ---------------------------------------------------------------------------
// [touch_input]
// ---------------------------------------------------------------------------

/// Input device nodes watched for touches: `/dev/input/event*`.
pub fn is_input_event_node(name: &str) -> (r: bool)
    ensures
        r == starts_with(name@, "event"@),
{
    chars_starts_with(str_to_chars(name).as_slice(), str_to_chars("event").as_slice())
}

/// A finger went down: a `BTN_TOUCH` key press (type 1, code 330, value 1)
/// or a new multi-touch tracking id (type 3, code 57, value not negative).
pub fn touch_down(etype: u16, code: u16, value: i32) -> (r: bool)
    ensures
        r == ((etype == 1 && code == 330 && value == 1) || (etype == 3 && code == 57 && value >= 0)),
{
    (etype == 1 && code == 330 && value == 1) || (etype == 3 && code == 57 && value >= 0)
}

} // verus!
