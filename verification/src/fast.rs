//! The fast-mode frequency lock: every cpufreq policy is pinned to its
//! hardware maximum (min = max = hw_max), rewritten every five seconds, and
//! restored to what the system had on release.
use vstd::prelude::*;
use crate::governor::takeover_original_spec;
use crate::lists::opt_view;
use crate::sysfs::{node_write, policy_node, policy_path, writes_view, NodeWrite};
use crate::text::{
    chars_to_string, dec, parse_u32, parse_u32_words, parse_unsigned, parsed_u32_words,
    str_to_chars, trim, trim_chars, u64_to_string, words,
};

verus! {

/// Milliseconds between two rewrites of the locked frequencies.
pub const REWRITE_INTERVAL_MS: u64 = 5000;

/// The state of one policy before the takeover, restored on release.
pub struct FastSnapshot {
    pub policy_id: i32,
    pub governor: Option<String>,
    pub min_freq: Option<u32>,
    pub max_freq: Option<u32>,
    pub hw_max: u32,
}

/// A policy held at its hardware maximum.
pub struct LockedPolicy {
    pub policy_id: i32,
    pub hw_max: u32,
    /// The frequency written last (kHz); 0 until a write succeeded.
    pub current_freq: u32,
}

/// The maximum-frequency lock of every policy, with the snapshots to
/// restore.
pub struct FastLock {
    policies: Vec<LockedPolicy>,
    snapshots: Vec<FastSnapshot>,
    active: bool,
    last_write_ms: u64,
}

/// A snapshot as plain values: id, governor, min, max, hardware maximum.
pub type SnapView = (i32, Option<Seq<char>>, Option<u32>, Option<u32>, u32);

pub open spec fn snap_view(s: FastSnapshot) -> SnapView {
    (s.policy_id, opt_view(s.governor), s.min_freq, s.max_freq, s.hw_max)
}

pub open spec fn locked_view(p: LockedPolicy) -> (i32, u32, u32) {
    (p.policy_id, p.hw_max, p.current_freq)
}

/// The largest element (0 for an empty sequence).
pub open spec fn seq_max(s: Seq<u32>) -> u32
    decreases s.len(),
{
    if s.len() == 0 {
        0
    } else {
        let m = seq_max(s.drop_last());
        if s.len() == 1 || s.last() > m {
            s.last()
        } else {
            m
        }
    }
}

/// The frequency a policy is locked at: the highest of its available and
/// boost frequencies; none when no available frequency could be read.
pub open spec fn fast_hw_max(avail: Seq<u32>, boost: Seq<u32>) -> Option<u32> {
    if avail.len() == 0 {
        None
    } else {
        Some(seq_max(avail + boost))
    }
}

/// A trimmed reading parsed as `u32`.
pub open spec fn read_u32_spec(read: Option<Seq<char>>) -> Option<u32> {
    match read {
        Some(t) => match parse_unsigned(trim(t), 0xffff_ffff) {
            Some(v) => Some(v as u32),
            None => None,
        },
        None => None,
    }
}

/// `snaps` without the snapshots of policy `id`.
pub open spec fn remove_snap(snaps: Seq<SnapView>, id: i32) -> Seq<SnapView>
    decreases snaps.len(),
{
    if snaps.len() == 0 {
        Seq::empty()
    } else {
        let r = remove_snap(snaps.drop_last(), id);
        if snaps.last().0 == id {
            r
        } else {
            r.push(snaps.last())
        }
    }
}

/// The snapshots whose restore failed (`ok[k]` false), kept for a retry.
pub open spec fn keep_failed(snaps: Seq<SnapView>, ok: Seq<bool>) -> Seq<SnapView>
    decreases snaps.len(),
{
    if snaps.len() == 0 || ok.len() != snaps.len() {
        snaps
    } else {
        let r = keep_failed(snaps.drop_last(), ok.drop_last());
        if ok.last() {
            r
        } else {
            r.push(snaps.last())
        }
    }
}

/// No policy has two snapshots.
pub open spec fn distinct_snap_ids(snaps: Seq<SnapView>) -> bool {
    forall|i: int, j: int| 0 <= i < j < snaps.len() ==> snaps[i].0 != snaps[j].0
}

proof fn lemma_remove_snap(snaps: Seq<SnapView>, id: i32)
    ensures
        forall|k: int| 0 <= k < remove_snap(snaps, id).len() ==> remove_snap(snaps, id)[k].0 != id,
        forall|k: int| 0 <= k < remove_snap(snaps, id).len() ==> snaps.contains(remove_snap(snaps, id)[k]),
        distinct_snap_ids(snaps) ==> distinct_snap_ids(remove_snap(snaps, id)),
    decreases snaps.len(),
{
    if snaps.len() > 0 {
        let d = snaps.drop_last();
        lemma_remove_snap(d, id);
        let r = remove_snap(d, id);
        assert forall|k: int| 0 <= k < r.len() implies snaps.contains(#[trigger] r[k]) by {
            let j = choose|j: int| 0 <= j < d.len() && d[j] == r[k];
            assert(snaps[j] == r[k]);
        }
        assert(snaps[snaps.len() - 1] == snaps.last());
        if distinct_snap_ids(snaps) && snaps.last().0 != id {
            assert forall|k: int| 0 <= k < r.len() implies #[trigger] r[k].0 != snaps.last().0 by {
                let j = choose|j: int| 0 <= j < d.len() && d[j] == r[k];
                assert(snaps[j] == r[k]);
            }
        }
    }
}

proof fn lemma_keep_failed(snaps: Seq<SnapView>, ok: Seq<bool>)
    ensures
        forall|k: int| 0 <= k < keep_failed(snaps, ok).len() ==> snaps.contains(keep_failed(snaps, ok)[k]),
        distinct_snap_ids(snaps) ==> distinct_snap_ids(keep_failed(snaps, ok)),
    decreases snaps.len(),
{
    if snaps.len() > 0 && ok.len() == snaps.len() {
        let d = snaps.drop_last();
        lemma_keep_failed(d, ok.drop_last());
        let r = keep_failed(d, ok.drop_last());
        assert forall|k: int| 0 <= k < r.len() implies snaps.contains(#[trigger] r[k]) by {
            let j = choose|j: int| 0 <= j < d.len() && d[j] == r[k];
            assert(snaps[j] == r[k]);
        }
        assert(snaps[snaps.len() - 1] == snaps.last());
        if distinct_snap_ids(snaps) {
            assert forall|k: int| 0 <= k < r.len() implies #[trigger] r[k].0 != snaps.last().0 by {
                let j = choose|j: int| 0 <= j < d.len() && d[j] == r[k];
                assert(snaps[j] == r[k]);
            }
        }
    } else {
        assert forall|k: int| 0 <= k < keep_failed(snaps, ok).len() implies snaps.contains(
            #[trigger] keep_failed(snaps, ok)[k],
        ) by {
            assert(snaps[k] == keep_failed(snaps, ok)[k]);
        }
    }
}

/// The restore of one policy, in an order that keeps min <= max at every
/// step: the governor, max relaxed to the hardware maximum, then min, then
/// max; values that could not be read are not written.
pub open spec fn fast_restore_writes(s: SnapView) -> Seq<(Seq<char>, Seq<char>)> {
    let gov = match s.1 {
        Some(g) => seq![(policy_path(s.0 as int, "scaling_governor"@), g)],
        None => Seq::empty(),
    };
    let relax = seq![(policy_path(s.0 as int, "scaling_max_freq"@), dec(s.4 as nat))];
    let min = match s.2 {
        Some(v) => seq![(policy_path(s.0 as int, "scaling_min_freq"@), dec(v as nat))],
        None => Seq::empty(),
    };
    let max = match s.3 {
        Some(v) => seq![(policy_path(s.0 as int, "scaling_max_freq"@), dec(v as nat))],
        None => Seq::empty(),
    };
    gov + relax + min + max
}

/// The lock of one policy at `hw`: max first, then min.
pub open spec fn lock_writes_spec(id: i32, hw: u32) -> Seq<(Seq<char>, Seq<char>)> {
    seq![
        (policy_path(id as int, "scaling_max_freq"@), dec(hw as nat)),
        (policy_path(id as int, "scaling_min_freq"@), dec(hw as nat)),
    ]
}

/// The rewrite of every locked policy, in order.
pub open spec fn tick_writes_spec(ps: Seq<(i32, u32, u32)>) -> Seq<(Seq<char>, Seq<char>)>
    decreases ps.len(),
{
    if ps.len() == 0 {
        Seq::empty()
    } else {
        tick_writes_spec(ps.drop_last()) + lock_writes_spec(ps.last().0, ps.last().1)
    }
}

proof fn lemma_seq_max(s: Seq<u32>)
    requires
        s.len() > 0,
    ensures
        s.contains(seq_max(s)),
        forall|k: int| 0 <= k < s.len() ==> s[k] <= seq_max(s),
    decreases s.len(),
{
    if s.len() > 1 {
        lemma_seq_max(s.drop_last());
        let m = seq_max(s.drop_last());
        let j = choose|j: int| 0 <= j < s.drop_last().len() && s.drop_last()[j] == m;
        assert(s[j] == m);
        assert(s[s.len() - 1] == s.last());
        assert forall|k: int| 0 <= k < s.len() implies s[k] <= seq_max(s) by {
            if k < s.len() - 1 {
                assert(s[k] == s.drop_last()[k]);
            }
        }
    } else {
        assert(s[0] == s.last());
    }
}

/// The frequency a policy is locked at never falls below any available or
/// boost frequency, and is one of them.
pub proof fn law_hw_max_is_highest(avail: Seq<u32>, boost: Seq<u32>)
    requires
        avail.len() > 0,
    ensures
        fast_hw_max(avail, boost) matches Some(m) && (avail + boost).contains(m) && (forall|k: int|
            0 <= k < (avail + boost).len() ==> (avail + boost)[k] <= m),
{
    lemma_seq_max(avail + boost);
}

/// The hardware maximum of a policy from the text of its
/// `scaling_available_frequencies` and its boost frequencies.
pub fn policy_hw_max(avail_text: &str, boost: &Vec<u32>) -> (r: Option<u32>)
    ensures
        r == fast_hw_max(parsed_u32_words(words(avail_text@)), boost@),
{
    let freqs = parse_u32_words(avail_text);
    if freqs.len() == 0 {
        return None;
    }
    let ghost all = freqs@ + boost@;
    let mut m: u32 = 0;
    let mut i: usize = 0;
    let n = freqs.len();
    while i < n
        invariant
            n == freqs@.len(),
            all == freqs@ + boost@,
            i <= n,
            m == seq_max(all.take(i as int)),
        decreases n - i,
    {
        let v = freqs[i];
        proof {
            assert(all.take(i + 1).drop_last() =~= all.take(i as int));
            assert(all.take(i + 1).last() == all[i as int]);
        }
        if i == 0 || v > m {
            m = v;
        }
        i += 1;
    }
    let mut j: usize = 0;
    while j < boost.len()
        invariant
            n == freqs@.len(),
            n > 0,
            all == freqs@ + boost@,
            j <= boost@.len(),
            m == seq_max(all.take(n + j)),
        decreases boost.len() - j,
    {
        let v = boost[j];
        proof {
            assert(all.take(n + j + 1).drop_last() =~= all.take(n + j));
            assert(all.take(n + j + 1).last() == all[n + j]);
        }
        if v > m {
            m = v;
        }
        j += 1;
    }
    proof {
        assert(all.take(n + boost.len()) =~= all);
    }
    Some(m)
}

/// A reading trimmed and parsed as `u32`.
pub fn read_u32_value(read: Option<&str>) -> (r: Option<u32>)
    ensures
        r == read_u32_spec(match read {
            Some(t) => Some(t@),
            None => None,
        }),
{
    match read {
        Some(t) => {
            let c = trim_chars(str_to_chars(t).as_slice());
            parse_u32(c.as_slice())
        },
        None => None,
    }
}

/// A governor reading trimmed; blank or unreadable gives none.
pub fn read_governor_value(read: Option<&str>) -> (r: Option<String>)
    ensures
        opt_view(r) == takeover_original_spec(match read {
            Some(t) => Some(t@),
            None => None,
        }),
{
    match read {
        Some(t) => {
            let c = trim_chars(str_to_chars(t).as_slice());
            if c.len() > 0 {
                Some(chars_to_string(c))
            } else {
                None
            }
        },
        None => None,
    }
}

fn push_write(out: &mut Vec<NodeWrite>, id: i32, node: &str, value: u32)
    ensures
        writes_view(final(out)@) == writes_view(old(out)@).push(
            (policy_path(id as int, node@), dec(value as nat)),
        ),
{
    let w = node_write(policy_node(id, node), u64_to_string(value as u64).as_str());
    let ghost before = out@;
    out.push(w);
    proof {
        assert(writes_view(out@) =~= writes_view(before).push(
            (policy_path(id as int, node@), dec(value as nat)),
        ));
    }
}

/// The writes that lock policy `id` at `hw`: max first, then min, so that
/// min never exceeds max on the way up.
pub fn lock_writes(id: i32, hw: u32) -> (r: Vec<NodeWrite>)
    ensures
        writes_view(r@) == lock_writes_spec(id, hw),
{
    let mut out: Vec<NodeWrite> = Vec::new();
    push_write(&mut out, id, "scaling_max_freq", hw);
    push_write(&mut out, id, "scaling_min_freq", hw);
    proof {
        assert(writes_view(out@) =~= lock_writes_spec(id, hw));
    }
    out
}

/// The first lock write of a policy whose frequency writers could be
/// opened (`writers_valid`): max to `hw`. None when they could not: the
/// policy is not locked.
pub fn lock_max_first(id: i32, hw: u32, writers_valid: bool) -> (r: Option<NodeWrite>)
    ensures
        r is Some <==> writers_valid,
        r matches Some(w) ==> (w.path@, w.value@) == lock_writes_spec(id, hw)[0],
{
    if !writers_valid {
        return None;
    }
    proof {
        reveal_strlit("scaling_max_freq");
    }
    Some(node_write(policy_node(id, "scaling_max_freq"), u64_to_string(hw as u64).as_str()))
}

/// The second lock write: min to `hw`, only after the max write succeeded
/// (`max_ok`), so that min never exceeds max.
pub fn lock_min_after(id: i32, hw: u32, max_ok: bool) -> (r: Option<NodeWrite>)
    ensures
        r is Some <==> max_ok,
        r matches Some(w) ==> (w.path@, w.value@) == lock_writes_spec(id, hw)[1],
{
    if !max_ok {
        return None;
    }
    proof {
        reveal_strlit("scaling_min_freq");
    }
    Some(node_write(policy_node(id, "scaling_min_freq"), u64_to_string(hw as u64).as_str()))
}

/// The writes that restore one snapshot (see `fast_restore_writes`).
pub fn restore_writes_for(s: &FastSnapshot) -> (r: Vec<NodeWrite>)
    ensures
        writes_view(r@) == fast_restore_writes(snap_view(*s)),
{
    let mut out: Vec<NodeWrite> = Vec::new();
    match &s.governor {
        Some(g) => {
            let w = node_write(policy_node(s.policy_id, "scaling_governor"), g.as_str());
            out.push(w);
            proof {
                assert(writes_view(out@) =~= seq![
                    (policy_path(s.policy_id as int, "scaling_governor"@), g@),
                ]);
            }
        },
        None => {
            proof {
                assert(writes_view(out@) =~= Seq::<(Seq<char>, Seq<char>)>::empty());
            }
        },
    }
    push_write(&mut out, s.policy_id, "scaling_max_freq", s.hw_max);
    match s.min_freq {
        Some(v) => push_write(&mut out, s.policy_id, "scaling_min_freq", v),
        None => {},
    }
    match s.max_freq {
        Some(v) => push_write(&mut out, s.policy_id, "scaling_max_freq", v),
        None => {},
    }
    proof {
        assert(writes_view(out@) =~= fast_restore_writes(snap_view(*s)));
    }
    out
}

fn copy_snapshot(s: &FastSnapshot) -> (r: FastSnapshot)
    ensures
        snap_view(r) == snap_view(*s),
{
    FastSnapshot {
        policy_id: s.policy_id,
        governor: match &s.governor {
            Some(g) => Some(chars_to_string(str_to_chars(g.as_str()))),
            None => None,
        },
        min_freq: s.min_freq,
        max_freq: s.max_freq,
        hw_max: s.hw_max,
    }
}

impl FastLock {
    pub closed spec fn is_active_spec(&self) -> bool {
        self.active
    }

    /// The snapshots waiting to be restored, in the order they were taken.
    pub closed spec fn snaps(&self) -> Seq<SnapView> {
        self.snapshots@.map_values(|s: FastSnapshot| snap_view(s))
    }

    /// The locked policies.
    pub closed spec fn locked(&self) -> Seq<(i32, u32, u32)> {
        self.policies@.map_values(|p: LockedPolicy| locked_view(p))
    }

    /// When the locked frequencies were last written (ms).
    pub closed spec fn last_write_spec(&self) -> u64 {
        self.last_write_ms
    }

    /// Outside a takeover in progress, the lock is active exactly while a
    /// policy is locked.
    pub open spec fn settled(&self) -> bool {
        self.is_active_spec() <==> self.locked().len() > 0
    }

    pub fn new(now_ms: u64) -> (r: FastLock)
        ensures
            !r.is_active_spec(),
            r.snaps().len() == 0,
            r.locked().len() == 0,
            r.last_write_spec() == now_ms,
            r.settled(),
            distinct_snap_ids(r.snaps()),
    {
        let r = FastLock {
            policies: Vec::new(),
            snapshots: Vec::new(),
            active: false,
            last_write_ms: now_ms,
        };
        proof {
            assert(r.snaps() =~= Seq::<SnapView>::empty());
            assert(r.locked() =~= Seq::<(i32, u32, u32)>::empty());
        }
        r
    }

    pub fn is_active(&self) -> (r: bool)
        ensures
            r == self.is_active_spec(),
    {
        self.active
    }

    /// For each snapshot, in order, the writes that restore it.
    pub fn restore_plan(&self) -> (r: Vec<Vec<NodeWrite>>)
        ensures
            r@.len() == self.snaps().len(),
            forall|k: int| 0 <= k < r@.len() ==> writes_view(#[trigger] r@[k]@) == fast_restore_writes(
                self.snaps()[k],
            ),
    {
        let mut out: Vec<Vec<NodeWrite>> = Vec::new();
        let mut i: usize = 0;
        while i < self.snapshots.len()
            invariant
                i <= self.snapshots.len(),
                out@.len() == i,
                forall|k: int| 0 <= k < i ==> writes_view(#[trigger] out@[k]@) == fast_restore_writes(
                    self.snaps()[k],
                ),
            decreases self.snapshots.len() - i,
        {
            let w = restore_writes_for(&self.snapshots[i]);
            out.push(w);
            i += 1;
        }
        out
    }

    /// Releases the lock after the restore plan was carried out
    /// (`restored[k]`: every write of snapshot `k` succeeded): restored
    /// snapshots are dropped, failed ones are kept for the next release, and
    /// no policy stays locked.
    pub fn release(&mut self, restored: &Vec<bool>)
        requires
            restored@.len() == old(self).snaps().len(),
        ensures
            final(self).snaps() == keep_failed(old(self).snaps(), restored@),
            final(self).locked().len() == 0,
            !final(self).is_active_spec(),
            final(self).last_write_spec() == old(self).last_write_spec(),
            final(self).settled(),
            distinct_snap_ids(old(self).snaps()) ==> distinct_snap_ids(final(self).snaps()),
    {
        let ghost s0 = self.snaps();
        proof {
            lemma_keep_failed(s0, restored@);
        }
        let mut kept: Vec<FastSnapshot> = Vec::new();
        let mut i: usize = 0;
        while i < self.snapshots.len()
            invariant
                i <= self.snapshots.len(),
                restored@.len() == self.snapshots@.len(),
                s0 == self.snaps(),
                kept@.map_values(|s: FastSnapshot| snap_view(s)) == keep_failed(
                    s0.take(i as int),
                    restored@.take(i as int),
                ),
            decreases self.snapshots.len() - i,
        {
            proof {
                assert(s0.take(i + 1).drop_last() =~= s0.take(i as int));
                assert(restored@.take(i + 1).drop_last() =~= restored@.take(i as int));
                assert(s0.take(i + 1).last() == s0[i as int]);
                assert(restored@.take(i + 1).last() == restored@[i as int]);
            }
            if !restored[i] {
                let c = copy_snapshot(&self.snapshots[i]);
                let ghost before = kept@;
                kept.push(c);
                proof {
                    assert(kept@.map_values(|s: FastSnapshot| snap_view(s)) =~= before.map_values(
                        |s: FastSnapshot| snap_view(s),
                    ).push(s0[i as int]));
                }
            }
            i += 1;
        }
        proof {
            assert(s0.take(self.snapshots.len() as int) =~= s0);
            assert(restored@.take(self.snapshots.len() as int) =~= restored@);
        }
        self.snapshots = kept;
        self.policies = Vec::new();
        self.active = false;
        proof {
            assert(self.locked() =~= Seq::<(i32, u32, u32)>::empty());
        }
    }

    /// Remembers the state of policy `id` before it is taken over,
    /// replacing an older snapshot of the same policy.
    pub fn take_snapshot(
        &mut self,
        id: i32,
        hw_max: u32,
        governor_read: Option<&str>,
        min_read: Option<&str>,
        max_read: Option<&str>,
    )
        ensures
            final(self).snaps() == remove_snap(old(self).snaps(), id).push(
                (
                    id,
                    takeover_original_spec(match governor_read {
                        Some(t) => Some(t@),
                        None => None,
                    }),
                    read_u32_spec(match min_read {
                        Some(t) => Some(t@),
                        None => None,
                    }),
                    read_u32_spec(match max_read {
                        Some(t) => Some(t@),
                        None => None,
                    }),
                    hw_max,
                ),
            ),
            final(self).locked() == old(self).locked(),
            final(self).is_active_spec() == old(self).is_active_spec(),
            final(self).last_write_spec() == old(self).last_write_spec(),
            distinct_snap_ids(old(self).snaps()) ==> distinct_snap_ids(final(self).snaps()),
    {
        proof {
            lemma_remove_snap(old(self).snaps(), id);
        }
        let snap = FastSnapshot {
            policy_id: id,
            governor: read_governor_value(governor_read),
            min_freq: read_u32_value(min_read),
            max_freq: read_u32_value(max_read),
            hw_max,
        };
        let ghost s0 = self.snaps();
        let mut kept: Vec<FastSnapshot> = Vec::new();
        let mut i: usize = 0;
        while i < self.snapshots.len()
            invariant
                i <= self.snapshots.len(),
                s0 == self.snaps(),
                kept@.map_values(|s: FastSnapshot| snap_view(s)) == remove_snap(s0.take(i as int), id),
            decreases self.snapshots.len() - i,
        {
            proof {
                assert(s0.take(i + 1).drop_last() =~= s0.take(i as int));
                assert(s0.take(i + 1).last() == s0[i as int]);
            }
            if self.snapshots[i].policy_id != id {
                let c = copy_snapshot(&self.snapshots[i]);
                let ghost before = kept@;
                kept.push(c);
                proof {
                    assert(kept@.map_values(|s: FastSnapshot| snap_view(s)) =~= before.map_values(
                        |s: FastSnapshot| snap_view(s),
                    ).push(s0[i as int]));
                }
            }
            i += 1;
        }
        proof {
            assert(s0.take(self.snapshots.len() as int) =~= s0);
        }
        let ghost before = kept@;
        kept.push(snap);
        proof {
            assert(kept@.map_values(|s: FastSnapshot| snap_view(s)) =~= before.map_values(
                |s: FastSnapshot| snap_view(s),
            ).push(snap_view(snap)));
        }
        self.snapshots = kept;
    }

    /// Starts the takeover of policy `id`: its state is snapshotted first
    /// (as `take_snapshot`), then the one write returned sets its governor to
    /// `schedutil`.
    pub fn begin_takeover(
        &mut self,
        id: i32,
        hw_max: u32,
        governor_read: Option<&str>,
        min_read: Option<&str>,
        max_read: Option<&str>,
    ) -> (r: Vec<NodeWrite>)
        ensures
            final(self).snaps() == remove_snap(old(self).snaps(), id).push(
                (
                    id,
                    takeover_original_spec(match governor_read {
                        Some(t) => Some(t@),
                        None => None,
                    }),
                    read_u32_spec(match min_read {
                        Some(t) => Some(t@),
                        None => None,
                    }),
                    read_u32_spec(match max_read {
                        Some(t) => Some(t@),
                        None => None,
                    }),
                    hw_max,
                ),
            ),
            final(self).locked() == old(self).locked(),
            final(self).is_active_spec() == old(self).is_active_spec(),
            final(self).last_write_spec() == old(self).last_write_spec(),
            distinct_snap_ids(old(self).snaps()) ==> distinct_snap_ids(final(self).snaps()),
            writes_view(r@) == seq![(policy_path(id as int, "scaling_governor"@), "schedutil"@)],
    {
        self.take_snapshot(id, hw_max, governor_read, min_read, max_read);
        let mut out: Vec<NodeWrite> = Vec::new();
        out.push(node_write(policy_node(id, "scaling_governor"), "schedutil"));
        proof {
            assert(writes_view(out@) =~= seq![(policy_path(id as int, "scaling_governor"@), "schedutil"@)]);
        }
        out
    }

    /// Adds a policy whose writers could be opened; `first_write_ok` tells
    /// whether its first lock (see `lock_writes`) succeeded.
    pub fn add_locked(&mut self, id: i32, hw_max: u32, first_write_ok: bool)
        ensures
            final(self).locked() == old(self).locked().push(
                (id, hw_max, if first_write_ok { hw_max } else { 0 }),
            ),
            final(self).snaps() == old(self).snaps(),
            final(self).is_active_spec() == old(self).is_active_spec(),
            final(self).last_write_spec() == old(self).last_write_spec(),
    {
        let p = LockedPolicy {
            policy_id: id,
            hw_max,
            current_freq: if first_write_ok { hw_max } else { 0 },
        };
        self.policies.push(p);
        proof {
            assert(self.locked() =~= old(self).locked().push(locked_view(p)));
        }
    }

    /// Ends a takeover: the lock is active when a policy is locked; the
    /// rewrite clock starts now.
    pub fn finish_init(&mut self, now_ms: u64)
        ensures
            final(self).is_active_spec() == (old(self).locked().len() > 0),
            final(self).last_write_spec() == now_ms,
            final(self).locked() == old(self).locked(),
            final(self).snaps() == old(self).snaps(),
            final(self).settled(),
    {
        self.active = self.policies.len() > 0;
        self.last_write_ms = now_ms;
    }

    /// The periodic rewrite: while active and once five seconds have passed
    /// since the last write, every locked policy is written again (max then
    /// min, at its hardware maximum) and the clock restarts; otherwise
    /// nothing is written.
    pub fn tick(&mut self, now_ms: u64) -> (r: Vec<NodeWrite>)
        ensures
            final(self).locked() == old(self).locked(),
            final(self).snaps() == old(self).snaps(),
            final(self).is_active_spec() == old(self).is_active_spec(),
            old(self).settled() ==> final(self).settled(),
            if old(self).is_active_spec() && now_ms >= old(self).last_write_spec()
                + REWRITE_INTERVAL_MS {
                &&& writes_view(r@) == tick_writes_spec(old(self).locked())
                &&& final(self).last_write_spec() == now_ms
            } else {
                &&& r@.len() == 0
                &&& final(self).last_write_spec() == old(self).last_write_spec()
            },
    {
        let mut out: Vec<NodeWrite> = Vec::new();
        if !self.active || now_ms.saturating_sub(self.last_write_ms) < REWRITE_INTERVAL_MS {
            return out;
        }
        self.last_write_ms = now_ms;
        let ghost ps = self.locked();
        let mut i: usize = 0;
        proof {
            assert(ps.take(0) =~= Seq::<(i32, u32, u32)>::empty());
        }
        while i < self.policies.len()
            invariant
                i <= self.policies.len(),
                ps == self.locked(),
                writes_view(out@) == tick_writes_spec(ps.take(i as int)),
            decreases self.policies.len() - i,
        {
            proof {
                assert(ps.take(i + 1).drop_last() =~= ps.take(i as int));
                assert(ps.take(i + 1).last() == ps[i as int]);
            }
            let id = self.policies[i].policy_id;
            let hw = self.policies[i].hw_max;
            push_write(&mut out, id, "scaling_max_freq", hw);
            push_write(&mut out, id, "scaling_min_freq", hw);
            proof {
                assert(writes_view(out@) =~= tick_writes_spec(ps.take(i as int)) + lock_writes_spec(
                    id,
                    hw,
                ));
            }
            i += 1;
        }
        proof {
            assert(ps.take(self.policies.len() as int) =~= ps);
        }
        out
    }

    /// Records whether the rewrite of locked policy `k` succeeded.
    pub fn record_write(&mut self, k: usize, ok: bool)
        requires
            k < old(self).locked().len(),
        ensures
            final(self).locked() == if ok {
                old(self).locked().update(
                    k as int,
                    (old(self).locked()[k as int].0, old(self).locked()[k as int].1, old(
                        self,
                    ).locked()[k as int].1),
                )
            } else {
                old(self).locked()
            },
            final(self).snaps() == old(self).snaps(),
            final(self).is_active_spec() == old(self).is_active_spec(),
            final(self).last_write_spec() == old(self).last_write_spec(),
            old(self).settled() ==> final(self).settled(),
    {
        if ok {
            let p = LockedPolicy {
                policy_id: self.policies[k].policy_id,
                hw_max: self.policies[k].hw_max,
                current_freq: self.policies[k].hw_max,
            };
            self.policies.set(k, p);
            proof {
                assert(self.locked() =~= old(self).locked().update(k as int, locked_view(p)));
            }
        }
    }
}

/// A release whose restores all succeed leaves nothing to restore.
pub proof fn law_release_all_restored(snaps: Seq<SnapView>)
    ensures
        keep_failed(snaps, Seq::new(snaps.len(), |k: int| true)).len() == 0,
    decreases snaps.len(),
{
    if snaps.len() > 0 {
        let ok = Seq::new(snaps.len(), |k: int| true);
        assert(ok.drop_last() =~= Seq::new(snaps.drop_last().len(), |k: int| true));
        law_release_all_restored(snaps.drop_last());
    }
}

} // verus!
