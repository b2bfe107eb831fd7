//! The gearless max-frequency limiters of the special tunings: per cluster,
//! a cap that rises at once and falls only after the target stayed low for a
//! hold time, and the snapshot/restore of the policies they take over.
use vstd::prelude::*;
use crate::fast::{read_governor_value, read_u32_spec, read_u32_value};
use crate::cpulist::{sort_dedup, sorted_distinct, strictly_increasing};
use crate::governor::takeover_original_spec;
use crate::lists::opt_view;
use crate::sysfs::{node_write, policy_node, policy_path, writes_view, NodeWrite};
use crate::text::{chars_to_string, dec, str_to_chars, u64_to_string};

verus! {

/// What a limiter did with a cluster this tick.
#[derive(PartialEq, Eq, Structural, Clone, Copy)]
pub enum LimitDecision {
    Up,
    DownWait,
    Down,
    Hold,
}

pub open spec fn widen(s: Seq<u32>) -> Seq<usize> {
    s.map_values(|x: u32| x as usize)
}

/// A policy's frequency table: the available frequencies, increasing, each
/// once (sort + dedup).
pub fn freq_table(freqs: &Vec<u32>) -> (r: Vec<u32>)
    ensures
        widen(r@) == sorted_distinct(widen(freqs@)),
        forall|i: int, j: int| 0 <= i < j < r@.len() ==> r@[i] < r@[j],
        r@.len() > 0 <==> freqs@.len() > 0,
{
    let mut wide: Vec<usize> = Vec::new();
    let mut i: usize = 0;
    while i < freqs.len()
        invariant
            i <= freqs.len(),
            wide@ == widen(freqs@.take(i as int)),
        decreases freqs.len() - i,
    {
        wide.push(freqs[i] as usize);
        proof {
            assert(widen(freqs@.take(i + 1)) =~= widen(freqs@.take(i as int)).push(freqs@[i as int] as usize));
        }
        i += 1;
    }
    proof {
        assert(freqs@.take(freqs.len() as int) =~= freqs@);
    }
    let sorted = sort_dedup(&wide);
    let mut out: Vec<u32> = Vec::new();
    let mut k: usize = 0;
    while k < sorted.len()
        invariant
            k <= sorted.len(),
            wide@ == widen(freqs@),
            strictly_increasing(sorted@),
            forall|x: usize| sorted@.contains(x) <==> wide@.contains(x),
            widen(out@) == sorted@.take(k as int),
            out@.len() == k,
        decreases sorted.len() - k,
    {
        let y = sorted[k];
        proof {
            assert(sorted@.contains(y));
            let j = choose|j: int| 0 <= j < wide@.len() && wide@[j] == y;
            assert(wide@[j] == freqs@[j] as usize);
        }
        out.push(y as u32);
        proof {
            assert(widen(out@) =~= sorted@.take(k + 1));
        }
        k += 1;
    }
    proof {
        assert(sorted@.take(sorted.len() as int) =~= sorted@);
        if freqs@.len() > 0 {
            assert(wide@[0] == freqs@[0] as usize);
            assert(wide@.contains(wide@[0]));
            assert(sorted@.contains(wide@[0]));
        }
        if sorted@.len() > 0 {
            assert(sorted@.contains(sorted@[0]));
        }
        assert forall|i: int, j: int| 0 <= i < j < out@.len() implies out@[i] < out@[j] by {
            assert(widen(out@)[i] == out@[i] as usize);
            assert(widen(out@)[j] == out@[j] as usize);
        }
    }
    out
}

/// The cap of a frequency table for a wanted frequency: the lowest entry
/// not below `want`; the last (highest) entry when none is, 0 for an empty
/// table.
pub open spec fn freq_at_least_spec(freqs: Seq<u32>, want: u32) -> u32 {
    if exists|i: int| 0 <= i < freqs.len() && freqs[i] >= want {
        freqs[choose|i: int|
            0 <= i < freqs.len() && freqs[i] >= want && forall|j: int| 0 <= j < i ==> freqs[j] < want]
    } else if freqs.len() > 0 {
        freqs.last()
    } else {
        0
    }
}

/// The lowest available frequency not below `want` (see
/// `freq_at_least_spec`).
pub fn freq_at_least(freqs: &Vec<u32>, want: u32) -> (r: u32)
    ensures
        r == freq_at_least_spec(freqs@, want),
{
    let mut i: usize = 0;
    while i < freqs.len()
        invariant
            i <= freqs.len(),
            forall|j: int| 0 <= j < i ==> freqs@[j] < want,
        decreases freqs.len() - i,
    {
        if freqs[i] >= want {
            proof {
                let k = choose|k: int|
                    0 <= k < freqs@.len() && freqs@[k] >= want && forall|j: int| 0 <= j < k ==> freqs@[j] < want;
                if k < i {
                    assert(freqs@[k] < want);
                } else if k > i {
                    assert(freqs@[i as int] < want);
                }
            }
            return freqs[i];
        }
        i += 1;
    }
    if freqs.len() > 0 {
        freqs[freqs.len() - 1]
    } else {
        0
    }
}

/// Milliseconds from `since` to `now` (0 when `now` is earlier).
pub open spec fn elapsed_ms(now: u64, since: u64) -> int {
    if now >= since {
        now - since
    } else {
        0
    }
}

/// The cap of one cluster under the plain limiter (a new target restarts
/// the hold).
pub struct AkLimit {
    pub current_max: u32,
    pub down_since_ms: Option<u64>,
    pub down_target: u32,
}

impl AkLimit {
    /// A cluster taken over at `hw_max`.
    pub fn new(hw_max: u32) -> (r: AkLimit)
        ensures
            r.current_max == hw_max,
            r.down_since_ms is None,
            r.down_target == 0,
    {
        AkLimit { current_max: hw_max, down_since_ms: None, down_target: 0 }
    }

    /// The decision for `target` (with dead band `hyst`): above the cap plus
    /// the band, rise now (the pending drop is cancelled); below the cap
    /// minus the band, start or continue the hold (a different target
    /// restarts it) and drop once it lasted `hold_ms`; otherwise hold (the
    /// pending drop is cancelled). The result's second part tells whether
    /// `target` is to be written; `after_write` records the outcome.
    pub fn step(&mut self, target: u32, hyst: u32, hold_ms: u64, now_ms: u64) -> (r: (LimitDecision, bool))
        requires
            old(self).current_max as int + hyst as int <= u32::MAX,
        ensures
            final(self).current_max == old(self).current_max,
            if target as int > old(self).current_max as int + hyst as int {
                r == (LimitDecision::Up, true) && final(self).down_since_ms is None && final(self).down_target
                    == old(self).down_target
            } else if (target as int) < old(self).current_max as int - hyst as int {
                match old(self).down_since_ms {
                    None => r == (LimitDecision::DownWait, false) && final(self).down_since_ms == Some(now_ms)
                        && final(self).down_target == target,
                    Some(since) => if old(self).down_target != target {
                        r == (LimitDecision::DownWait, false) && final(self).down_since_ms == Some(now_ms)
                            && final(self).down_target == target
                    } else if elapsed_ms(now_ms, since) >= hold_ms {
                        r == (LimitDecision::Down, true) && *final(self) == *old(self)
                    } else {
                        r == (LimitDecision::DownWait, false) && *final(self) == *old(self)
                    },
                }
            } else {
                r == (LimitDecision::Hold, false) && final(self).down_since_ms is None && final(self).down_target
                    == old(self).down_target
            },
    {
        if target > self.current_max + hyst {
            self.down_since_ms = None;
            (LimitDecision::Up, true)
        } else if target < self.current_max.saturating_sub(hyst) {
            match self.down_since_ms {
                None => {
                    self.down_since_ms = Some(now_ms);
                    self.down_target = target;
                    (LimitDecision::DownWait, false)
                },
                Some(since) => {
                    if self.down_target != target {
                        self.down_since_ms = Some(now_ms);
                        self.down_target = target;
                        (LimitDecision::DownWait, false)
                    } else if now_ms.saturating_sub(since) >= hold_ms {
                        (LimitDecision::Down, true)
                    } else {
                        (LimitDecision::DownWait, false)
                    }
                },
            }
        } else {
            self.down_since_ms = None;
            (LimitDecision::Hold, false)
        }
    }

    /// A successful write moves the cap to `target` and ends a drop's hold;
    /// a failed one changes nothing (the next tick retries).
    pub fn after_write(&mut self, decision: LimitDecision, target: u32, ok: bool)
        ensures
            ok ==> final(self).current_max == target,
            !ok ==> *final(self) == *old(self),
            ok ==> final(self).down_since_ms == if decision == LimitDecision::Down {
                None
            } else {
                old(self).down_since_ms
            },
            final(self).down_target == old(self).down_target,
    {
        if ok {
            self.current_max = target;
            if decision == LimitDecision::Down {
                self.down_since_ms = None;
            }
        }
    }
}

/// The cap of one cluster under the dwell-gated limiter.
pub struct TunedLimit {
    pub current_max: u32,
    pub down_since_ms: Option<u64>,
    pub down_target: u32,
    /// When the cap was last written successfully (none since the takeover).
    pub last_write_at_ms: Option<u64>,
    /// Direction of that write: 1 up, -1 down, 0 none yet.
    pub last_write_dir: i8,
    /// The last write did not succeed; the next one bypasses the dwell check.
    pub last_failed: bool,
}

/// A write of `target` is held back when it reverses the direction of the
/// last successful write within `dwell_ms` of it (unless the last write
/// failed).
pub open spec fn dwell_blocks(s: TunedLimit, target: u32, dwell_ms: u64, now_ms: u64) -> bool {
    let dir: i8 = if target > s.current_max {
        1i8
    } else {
        -1i8
    };
    !s.last_failed && s.last_write_dir != 0 && dir != s.last_write_dir && match s.last_write_at_ms {
        Some(at) => elapsed_ms(now_ms, at) < dwell_ms,
        None => false,
    }
}

impl TunedLimit {
    pub fn new(hw_max: u32) -> (r: TunedLimit)
        ensures
            r.current_max == hw_max,
            r.down_since_ms is None,
            r.down_target == 0,
            r.last_write_at_ms is None,
            r.last_write_dir == 0,
            !r.last_failed,
    {
        TunedLimit {
            current_max: hw_max,
            down_since_ms: None,
            down_target: 0,
            last_write_at_ms: None,
            last_write_dir: 0,
            last_failed: false,
        }
    }

    fn gate(&self, target: u32, dwell_ms: u64, now_ms: u64) -> (r: bool)
        ensures
            r == !dwell_blocks(*self, target, dwell_ms, now_ms),
    {
        let dir: i8 = if target > self.current_max {
            1
        } else {
            -1
        };
        if !self.last_failed && self.last_write_dir != 0 && dir != self.last_write_dir {
            match self.last_write_at_ms {
                Some(at) => {
                    if now_ms.saturating_sub(at) < dwell_ms {
                        return false;
                    }
                },
                None => {},
            }
        }
        true
    }

    /// The decision for `target`: as the plain limiter, except that a hold
    /// restarts only when the target rises more than the band above the
    /// held target (a falling or jittering target keeps the clock), a hold
    /// ends with the last target, a settled target clears a pending retry,
    /// and every write goes through the dwell gate. The second part tells
    /// whether `target` is to be written.
    pub fn step(
        &mut self,
        target: u32,
        hyst: u32,
        hold_ms: u64,
        dwell_ms: u64,
        now_ms: u64,
    ) -> (r: (LimitDecision, bool))
        requires
            old(self).current_max as int + hyst as int <= u32::MAX,
        ensures
            final(self).current_max == old(self).current_max,
            final(self).last_write_at_ms == old(self).last_write_at_ms,
            final(self).last_write_dir == old(self).last_write_dir,
            if target as int > old(self).current_max as int + hyst as int {
                r == (LimitDecision::Up, !dwell_blocks(*old(self), target, dwell_ms, now_ms))
                    && final(self).down_since_ms is None && final(self).last_failed == old(self).last_failed
                    && final(self).down_target == old(self).down_target
            } else if (target as int) < old(self).current_max as int - hyst as int {
                final(self).last_failed == old(self).last_failed && match old(self).down_since_ms {
                    None => r == (LimitDecision::DownWait, false) && final(self).down_since_ms == Some(
                        now_ms,
                    ) && final(self).down_target == target,
                    Some(since) => if target as int > old(self).down_target as int + hyst as int {
                        r == (LimitDecision::DownWait, false) && final(self).down_since_ms == Some(
                            now_ms,
                        ) && final(self).down_target == target
                    } else if elapsed_ms(now_ms, since) >= hold_ms {
                        r == (LimitDecision::Down, !dwell_blocks(*old(self), target, dwell_ms, now_ms))
                            && final(self).down_since_ms == old(self).down_since_ms && final(self).down_target == target
                    } else {
                        r == (LimitDecision::DownWait, false) && final(self).down_since_ms == old(self).down_since_ms && final(self).down_target == target
                    },
                }
            } else {
                r == (LimitDecision::Hold, false) && final(self).down_since_ms is None
                    && !final(self).last_failed && final(self).down_target == old(self).down_target
            },
    {
        if target > self.current_max + hyst {
            let w = self.gate(target, dwell_ms, now_ms);
            self.down_since_ms = None;
            (LimitDecision::Up, w)
        } else if target < self.current_max.saturating_sub(hyst) {
            match self.down_since_ms {
                None => {
                    self.down_since_ms = Some(now_ms);
                    self.down_target = target;
                    (LimitDecision::DownWait, false)
                },
                Some(since) => {
                    if target > self.down_target.saturating_add(hyst) {
                        self.down_since_ms = Some(now_ms);
                        self.down_target = target;
                        (LimitDecision::DownWait, false)
                    } else {
                        self.down_target = target;
                        if now_ms.saturating_sub(since) >= hold_ms {
                            let w = self.gate(target, dwell_ms, now_ms);
                            (LimitDecision::Down, w)
                        } else {
                            (LimitDecision::DownWait, false)
                        }
                    }
                },
            }
        } else {
            self.down_since_ms = None;
            self.last_failed = false;
            (LimitDecision::Hold, false)
        }
    }

    /// Records a write of `target` (made when `step` asked for it): success
    /// moves the cap, restarts the dwell clock with the write's direction,
    /// clears the retry flag and ends a drop's hold; failure marks a retry.
    pub fn after_write(&mut self, decision: LimitDecision, target: u32, ok: bool, now_ms: u64)
        ensures
            ok ==> final(self).current_max == target && final(self).last_write_at_ms == Some(now_ms)
                && final(self).last_write_dir == (if target > old(self).current_max {
                1i8
            } else {
                -1i8
            }) && !final(self).last_failed && final(self).down_since_ms == (if decision
                == LimitDecision::Down {
                None
            } else {
                old(self).down_since_ms
            }),
            !ok ==> final(self).last_failed && final(self).current_max == old(self).current_max
                && final(self).last_write_at_ms == old(self).last_write_at_ms
                && final(self).last_write_dir == old(self).last_write_dir && final(self).down_since_ms
                == old(self).down_since_ms,
            final(self).down_target == old(self).down_target,
    {
        if ok {
            let old_max = self.current_max;
            self.current_max = target;
            self.last_write_at_ms = Some(now_ms);
            self.last_write_dir = if target > old_max {
                1
            } else {
                -1
            };
            self.last_failed = false;
            if decision == LimitDecision::Down {
                self.down_since_ms = None;
            }
        } else {
            self.last_failed = true;
        }
    }
}

// ---------------------------------------------------------------------------
// [restore]
// ---------------------------------------------------------------------------

/// The state of a policy before a limiter took it over.
pub struct PolicyRestore {
    pub policy_id: i32,
    pub governor: Option<String>,
    pub min_freq: Option<u32>,
    pub max_freq: Option<u32>,
}

pub type RestoreView = (i32, Option<Seq<char>>, Option<u32>, Option<u32>);

pub open spec fn restore_view(r: PolicyRestore) -> RestoreView {
    (r.policy_id, opt_view(r.governor), r.min_freq, r.max_freq)
}

/// The restore of a policy: max first (so min is never above it), then
/// min, then the governor; what could not be read is not written.
pub open spec fn limit_restore_writes(r: RestoreView) -> Seq<(Seq<char>, Seq<char>)> {
    let max = match r.3 {
        Some(v) => seq![(policy_path(r.0 as int, "scaling_max_freq"@), dec(v as nat))],
        None => Seq::empty(),
    };
    let min = match r.2 {
        Some(v) => seq![(policy_path(r.0 as int, "scaling_min_freq"@), dec(v as nat))],
        None => Seq::empty(),
    };
    let gov = match r.1 {
        Some(g) => seq![(policy_path(r.0 as int, "scaling_governor"@), g)],
        None => Seq::empty(),
    };
    max + min + gov
}

/// The takeover of a policy: schedutil, min at the hardware minimum, max at
/// the hardware maximum.
pub open spec fn limit_takeover_writes(id: i32, hw_min: u32, hw_max: u32) -> Seq<(Seq<char>, Seq<char>)> {
    seq![
        (policy_path(id as int, "scaling_governor"@), "schedutil"@),
        (policy_path(id as int, "scaling_min_freq"@), dec(hw_min as nat)),
        (policy_path(id as int, "scaling_max_freq"@), dec(hw_max as nat)),
    ]
}

pub open spec fn remove_restore(rs: Seq<RestoreView>, id: i32) -> Seq<RestoreView>
    decreases rs.len(),
{
    if rs.len() == 0 {
        Seq::empty()
    } else {
        let r = remove_restore(rs.drop_last(), id);
        if rs.last().0 == id {
            r
        } else {
            r.push(rs.last())
        }
    }
}

pub open spec fn keep_unrestored(rs: Seq<RestoreView>, ok: Seq<bool>) -> Seq<RestoreView>
    decreases rs.len(),
{
    if rs.len() == 0 || ok.len() != rs.len() {
        rs
    } else {
        let r = keep_unrestored(rs.drop_last(), ok.drop_last());
        if ok.last() {
            r
        } else {
            r.push(rs.last())
        }
    }
}

fn push_freq(out: &mut Vec<NodeWrite>, id: i32, node: &str, v: u32)
    ensures
        writes_view(final(out)@) == writes_view(old(out)@).push((policy_path(id as int, node@), dec(v as nat))),
{
    let w = node_write(policy_node(id, node), u64_to_string(v as u64).as_str());
    let ghost before = out@;
    out.push(w);
    proof {
        assert(writes_view(out@) =~= writes_view(before).push((policy_path(id as int, node@), dec(v as nat))));
    }
}

/// The writes of a limiter's takeover of policy `id`.
pub fn limit_takeover(id: i32, hw_min: u32, hw_max: u32) -> (r: Vec<NodeWrite>)
    ensures
        writes_view(r@) == limit_takeover_writes(id, hw_min, hw_max),
{
    let mut out: Vec<NodeWrite> = Vec::new();
    out.push(node_write(policy_node(id, "scaling_governor"), "schedutil"));
    push_freq(&mut out, id, "scaling_min_freq", hw_min);
    push_freq(&mut out, id, "scaling_max_freq", hw_max);
    proof {
        assert(writes_view(out@) =~= limit_takeover_writes(id, hw_min, hw_max));
    }
    out
}

fn copy_restore(r: &PolicyRestore) -> (c: PolicyRestore)
    ensures
        restore_view(c) == restore_view(*r),
{
    PolicyRestore {
        policy_id: r.policy_id,
        governor: match &r.governor {
            Some(g) => Some(chars_to_string(str_to_chars(g.as_str()))),
            None => None,
        },
        min_freq: r.min_freq,
        max_freq: r.max_freq,
    }
}

/// The snapshots a limiter keeps until they are restored.
pub struct RestoreSet {
    restores: Vec<PolicyRestore>,
}

impl RestoreSet {
    pub closed spec fn view_seq(&self) -> Seq<RestoreView> {
        self.restores@.map_values(|r: PolicyRestore| restore_view(r))
    }

    pub fn new() -> (r: RestoreSet)
        ensures
            r.view_seq().len() == 0,
    {
        let r = RestoreSet { restores: Vec::new() };
        proof {
            assert(r.view_seq() =~= Seq::<RestoreView>::empty());
        }
        r
    }

    pub fn len(&self) -> (r: usize)
        ensures
            r == self.view_seq().len(),
    {
        self.restores.len()
    }

    /// Remembers policy `id` as read before the takeover (trimmed governor,
    /// parsed min and max), replacing an older snapshot of it.
    pub fn take_snapshot(
        &mut self,
        id: i32,
        governor_read: Option<&str>,
        min_read: Option<&str>,
        max_read: Option<&str>,
    )
        ensures
            final(self).view_seq() == remove_restore(old(self).view_seq(), id).push(
                (
                    id,
                    takeover_original_spec(match governor_read {
                        Some(t) => Some(t@),
                        None => None,
                    }),
                    read_u32_spec(match min_read {
                        Some(t) => Some(t@),
                        None => None,
                    }),
                    read_u32_spec(match max_read {
                        Some(t) => Some(t@),
                        None => None,
                    }),
                ),
            ),
    {
        let snap = PolicyRestore {
            policy_id: id,
            governor: read_governor_value(governor_read),
            min_freq: read_u32_value(min_read),
            max_freq: read_u32_value(max_read),
        };
        let ghost s0 = self.view_seq();
        let mut kept: Vec<PolicyRestore> = Vec::new();
        let mut i: usize = 0;
        while i < self.restores.len()
            invariant
                i <= self.restores.len(),
                s0 == self.view_seq(),
                kept@.map_values(|r: PolicyRestore| restore_view(r)) == remove_restore(s0.take(i as int), id),
            decreases self.restores.len() - i,
        {
            proof {
                assert(s0.take(i + 1).drop_last() =~= s0.take(i as int));
                assert(s0.take(i + 1).last() == s0[i as int]);
            }
            if self.restores[i].policy_id != id {
                let c = copy_restore(&self.restores[i]);
                let ghost before = kept@;
                kept.push(c);
                proof {
                    assert(kept@.map_values(|r: PolicyRestore| restore_view(r)) =~= before.map_values(
                        |r: PolicyRestore| restore_view(r),
                    ).push(s0[i as int]));
                }
            }
            i += 1;
        }
        proof {
            assert(s0.take(self.restores.len() as int) =~= s0);
        }
        let ghost before = kept@;
        kept.push(snap);
        proof {
            assert(kept@.map_values(|r: PolicyRestore| restore_view(r)) =~= before.map_values(
                |r: PolicyRestore| restore_view(r),
            ).push(restore_view(snap)));
        }
        self.restores = kept;
    }

    /// For each snapshot, the writes that restore it.
    pub fn restore_plan(&self) -> (r: Vec<Vec<NodeWrite>>)
        ensures
            r@.len() == self.view_seq().len(),
            forall|k: int| 0 <= k < r@.len() ==> writes_view(#[trigger] r@[k]@) == limit_restore_writes(
                self.view_seq()[k],
            ),
    {
        let mut out: Vec<Vec<NodeWrite>> = Vec::new();
        let mut i: usize = 0;
        while i < self.restores.len()
            invariant
                i <= self.restores.len(),
                out@.len() == i,
                forall|k: int| 0 <= k < i ==> writes_view(#[trigger] out@[k]@) == limit_restore_writes(
                    self.view_seq()[k],
                ),
            decreases self.restores.len() - i,
        {
            let r = &self.restores[i];
            let mut w: Vec<NodeWrite> = Vec::new();
            match r.max_freq {
                Some(v) => push_freq(&mut w, r.policy_id, "scaling_max_freq", v),
                None => {},
            }
            match r.min_freq {
                Some(v) => push_freq(&mut w, r.policy_id, "scaling_min_freq", v),
                None => {},
            }
            match &r.governor {
                Some(g) => {
                    let ghost before = w@;
                    w.push(node_write(policy_node(r.policy_id, "scaling_governor"), g.as_str()));
                    proof {
                        assert(writes_view(w@) =~= writes_view(before).push(
                            (policy_path(r.policy_id as int, "scaling_governor"@), g@),
                        ));
                    }
                },
                None => {},
            }
            proof {
                assert(self.view_seq()[i as int] == restore_view(*r));
                assert(writes_view(w@) =~= limit_restore_writes(restore_view(*r)));
            }
            out.push(w);
            i += 1;
        }
        out
    }

    /// After a release carried out the plan (`restored[k]`: snapshot `k`
    /// was fully written back): the restored snapshots are dropped, the
    /// others kept for the next release.
    pub fn finish_release(&mut self, restored: &Vec<bool>)
        requires
            restored@.len() == old(self).view_seq().len(),
        ensures
            final(self).view_seq() == keep_unrestored(old(self).view_seq(), restored@),
    {
        let ghost s0 = self.view_seq();
        let mut kept: Vec<PolicyRestore> = Vec::new();
        let mut i: usize = 0;
        while i < self.restores.len()
            invariant
                i <= self.restores.len(),
                restored@.len() == self.restores@.len(),
                s0 == self.view_seq(),
                kept@.map_values(|r: PolicyRestore| restore_view(r)) == keep_unrestored(
                    s0.take(i as int),
                    restored@.take(i as int),
                ),
            decreases self.restores.len() - i,
        {
            proof {
                assert(s0.take(i + 1).drop_last() =~= s0.take(i as int));
                assert(restored@.take(i + 1).drop_last() =~= restored@.take(i as int));
                assert(s0.take(i + 1).last() == s0[i as int]);
                assert(restored@.take(i + 1).last() == restored@[i as int]);
            }
            if !restored[i] {
                let c = copy_restore(&self.restores[i]);
                let ghost before = kept@;
                kept.push(c);
                proof {
                    assert(kept@.map_values(|r: PolicyRestore| restore_view(r)) =~= before.map_values(
                        |r: PolicyRestore| restore_view(r),
                    ).push(s0[i as int]));
                }
            }
            i += 1;
        }
        proof {
            assert(s0.take(self.restores.len() as int) =~= s0);
            assert(restored@.take(self.restores.len() as int) =~= restored@);
        }
        self.restores = kept;
    }
}


/// A policy a special tuning took over: its cluster name and frequency
/// table (increasing, each frequency once).
pub struct TakenPolicy {
    pub policy_id: i32,
    pub name: &'static str,
    pub freqs: Vec<u32>,
}

pub open spec fn taken_view(p: TakenPolicy) -> (i32, Seq<char>, Seq<u32>) {
    (p.policy_id, p.name@, p.freqs@)
}

/// The takeover state of a special tuning: the snapshots to restore, the
/// policies taken over, and whether the tuning holds.
pub struct TunedTakeover {
    restores: RestoreSet,
    policies: Vec<TakenPolicy>,
    active: bool,
}

/// The snapshot a limiter takes of one policy before writing to it.
pub open spec fn restore_entry(
    id: i32,
    governor_read: Option<&str>,
    min_read: Option<&str>,
    max_read: Option<&str>,
) -> RestoreView {
    (
        id,
        takeover_original_spec(match governor_read {
            Some(t) => Some(t@),
            None => None,
        }),
        read_u32_spec(match min_read {
            Some(t) => Some(t@),
            None => None,
        }),
        read_u32_spec(match max_read {
            Some(t) => Some(t@),
            None => None,
        }),
    )
}

impl TunedTakeover {
    pub closed spec fn is_active_spec(&self) -> bool {
        self.active
    }

    /// The snapshots waiting to be restored.
    pub closed spec fn restores_view(&self) -> Seq<RestoreView> {
        self.restores.view_seq()
    }

    /// The policies taken over, in order.
    pub closed spec fn policies_view(&self) -> Seq<(i32, Seq<char>, Seq<u32>)> {
        self.policies@.map_values(|p: TakenPolicy| taken_view(p))
    }

    pub fn new() -> (r: TunedTakeover)
        ensures
            !r.is_active_spec(),
            r.policies_view().len() == 0,
            r.restores_view().len() == 0,
    {
        let r = TunedTakeover { restores: RestoreSet::new(), policies: Vec::new(), active: false };
        proof {
            assert(r.policies_view() =~= Seq::<(i32, Seq<char>, Seq<u32>)>::empty());
        }
        r
    }

    pub fn is_active(&self) -> (r: bool)
        ensures
            r == self.is_active_spec(),
    {
        self.active
    }

    /// The frequency table of the `k`-th policy taken over.
    pub fn freqs_of(&self, k: usize) -> (r: &Vec<u32>)
        requires
            k < self.policies_view().len(),
        ensures
            r@ == self.policies_view()[k as int].2,
    {
        &self.policies[k]
    .freqs
    }

    /// One policy of a takeover. It qualifies when its available frequencies
    /// (`avail`) are not empty, its affected cores name a cluster (`name`)
    /// and its `scaling_max_freq` can be written (`max_writer_valid`); a
    /// policy that does not qualify changes nothing and gets no write. A
    /// qualifying policy is first snapshotted (governor, min and max as
    /// read, replacing an older snapshot of it) and remembered with its
    /// frequency table; the writes returned then set `schedutil`, min to the
    /// lowest frequency and max to the highest.
    pub fn add_policy(
        &mut self,
        id: i32,
        avail: &Vec<u32>,
        name: Option<&'static str>,
        max_writer_valid: bool,
        governor_read: Option<&str>,
        min_read: Option<&str>,
        max_read: Option<&str>,
    ) -> (r: Option<Vec<NodeWrite>>)
        ensures
            final(self).is_active_spec() == old(self).is_active_spec(),
            (avail@.len() > 0 && name is Some && max_writer_valid) ==> {
                &&& final(self).restores_view() == remove_restore(old(self).restores_view(), id).push(
                    restore_entry(id, governor_read, min_read, max_read),
                )
                &&& final(self).policies_view().len() == old(self).policies_view().len() + 1
                &&& final(self).policies_view().drop_last() == old(self).policies_view()
                &&& final(self).policies_view().last().0 == id
                &&& final(self).policies_view().last().1 == name->0@
                &&& widen(final(self).policies_view().last().2) == sorted_distinct(widen(avail@))
                &&& final(self).policies_view().last().2.len() > 0
                &&& r matches Some(ws) && writes_view(ws@) == limit_takeover_writes(
                    id,
                    final(self).policies_view().last().2[0],
                    final(self).policies_view().last().2.last(),
                )
            },
            !(avail@.len() > 0 && name is Some && max_writer_valid) ==> {
                &&& r is None
                &&& final(self).restores_view() == old(self).restores_view()
                &&& final(self).policies_view() == old(self).policies_view()
            },
    {
        if avail.len() == 0 || name.is_none() || !max_writer_valid {
            return None;
        }
        let n = match name {
            Some(n) => n,
            None => return None,
        };
        let freqs = freq_table(avail);
        self.restores.take_snapshot(id, governor_read, min_read, max_read);
        let hw_min = freqs[0];
        let hw_max = freqs[freqs.len() - 1];
        let ws = limit_takeover(id, hw_min, hw_max);
        let ghost before = self.policies@;
        self.policies.push(TakenPolicy { policy_id: id, name: n, freqs });
        proof {
            assert(self.policies_view().drop_last() =~= before.map_values(|p: TakenPolicy| taken_view(p)));
        }
        Some(ws)
    }

    /// Ends a takeover: the tuning holds exactly when a policy was taken
    /// over; the result tells whether it does.
    pub fn finish(&mut self) -> (r: bool)
        ensures
            r == final(self).is_active_spec(),
            r == (old(self).policies_view().len() > 0),
            final(self).policies_view() == old(self).policies_view(),
            final(self).restores_view() == old(self).restores_view(),
    {
        self.active = self.policies.len() > 0;
        self.active
    }

    /// For each snapshot, in order, the writes that restore it.
    pub fn restore_plan(&self) -> (r: Vec<Vec<NodeWrite>>)
        ensures
            r@.len() == self.restores_view().len(),
            forall|k: int| 0 <= k < r@.len() ==> writes_view(#[trigger] r@[k]@) == limit_restore_writes(
                self.restores_view()[k],
            ),
    {
        self.restores.restore_plan()
    }

    /// Drops the snapshots that were restored (`restored[k]`: every write of
    /// snapshot `k` succeeded); the others are kept for the next release.
    pub fn finish_release(&mut self, restored: &Vec<bool>)
        requires
            restored@.len() == old(self).restores_view().len(),
        ensures
            final(self).restores_view() == keep_unrestored(old(self).restores_view(), restored@),
            final(self).policies_view() == old(self).policies_view(),
            final(self).is_active_spec() == old(self).is_active_spec(),
    {
        self.restores.finish_release(restored);
    }

    /// Forgets the policies taken over and goes idle (the snapshots are
    /// restored through `restore_plan` and `finish_release`).
    pub fn drop_policies(&mut self)
        ensures
            !final(self).is_active_spec(),
            final(self).policies_view().len() == 0,
            final(self).restores_view() == old(self).restores_view(),
    {
        self.policies = Vec::new();
        self.active = false;
        proof {
            assert(self.policies_view() =~= Seq::<(i32, Seq<char>, Seq<u32>)>::empty());
        }
    }
}

} // verus!
