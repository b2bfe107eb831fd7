//! The performance-governor guard: it switches every cpufreq policy whose
//! governor it could read to `performance`, remembers the governor it found,
//! and writes those back on release.
use vstd::prelude::*;
use crate::lists::opt_view;
use crate::sysfs::{node_write, policy_node, policy_path, writes_view, NodeWrite};
use crate::text::{chars_to_string, str_eq, str_to_chars, trim, trim_chars};

verus! {

/// The governor of one policy before the takeover.
pub struct GovernorSnapshot {
    pub policy_id: i32,
    pub original: String,
}

/// One planned takeover: `value` (`performance`) goes to `path`;
/// `original` is what the node held.
pub struct GovernorSwitch {
    pub policy_id: i32,
    pub path: String,
    pub value: String,
    pub original: String,
}

/// The `performance` governor takeover and the governors it replaced.
pub struct GovernorGuard {
    snapshots: Vec<GovernorSnapshot>,
    active: bool,
}

/// A reading of the governor node of one policy (`None`: unreadable).
pub open spec fn readings_view(rs: Seq<(i32, Option<String>)>) -> Seq<(i32, Option<Seq<char>>)> {
    rs.map_values(|r: (i32, Option<String>)| (r.0, opt_view(r.1)))
}

/// The governor to remember for a reading: the trimmed text when it is not
/// empty; a policy without one is not taken over.
pub open spec fn takeover_original_spec(read: Option<Seq<char>>) -> Option<Seq<char>> {
    match read {
        Some(t) => if trim(t).len() > 0 {
            Some(trim(t))
        } else {
            None
        },
        None => None,
    }
}

/// The policies taken over, in reading order, with the governor found.
pub open spec fn takeover_plan(rs: Seq<(i32, Option<Seq<char>>)>) -> Seq<(i32, Seq<char>)>
    decreases rs.len(),
{
    if rs.len() == 0 {
        Seq::empty()
    } else {
        let p = takeover_plan(rs.drop_last());
        match takeover_original_spec(rs.last().1) {
            Some(o) => p.push((rs.last().0, o)),
            None => p,
        }
    }
}

/// `snaps` without the entries of policy `id`.
pub open spec fn remove_id(snaps: Seq<(i32, Seq<char>)>, id: i32) -> Seq<(i32, Seq<char>)>
    decreases snaps.len(),
{
    if snaps.len() == 0 {
        Seq::empty()
    } else {
        let r = remove_id(snaps.drop_last(), id);
        if snaps.last().0 == id {
            r
        } else {
            r.push(snaps.last())
        }
    }
}

/// The snapshots after the switches of `plan` whose write succeeded
/// (`ok`): each replaces an earlier snapshot of its policy.
pub open spec fn commit_spec(
    snaps: Seq<(i32, Seq<char>)>,
    plan: Seq<(i32, Seq<char>)>,
    ok: Seq<bool>,
) -> Seq<(i32, Seq<char>)>
    decreases plan.len(),
{
    if plan.len() == 0 || ok.len() != plan.len() {
        snaps
    } else {
        let s = commit_spec(snaps, plan.drop_last(), ok.drop_last());
        if ok.last() {
            remove_id(s, plan.last().0).push(plan.last())
        } else {
            s
        }
    }
}

/// The writes of a release: each remembered governor back to its node.
pub open spec fn restore_writes(snaps: Seq<(i32, Seq<char>)>) -> Seq<(Seq<char>, Seq<char>)> {
    snaps.map_values(|s: (i32, Seq<char>)| (policy_path(s.0 as int, "scaling_governor"@), s.1))
}

/// Every remembered governor is non-empty and already trimmed.
pub open spec fn all_trimmed(snaps: Seq<(i32, Seq<char>)>) -> bool {
    forall|k: int| 0 <= k < snaps.len() ==> #[trigger] snaps[k].1.len() > 0 && trim(snaps[k].1) == snaps[k].1
}

/// No policy occurs twice.
pub open spec fn distinct_ids(snaps: Seq<(i32, Seq<char>)>) -> bool {
    forall|i: int, j: int| 0 <= i < j < snaps.len() ==> snaps[i].0 != snaps[j].0
}

pub open spec fn switches_view(p: Seq<GovernorSwitch>) -> Seq<(i32, Seq<char>)> {
    p.map_values(|s: GovernorSwitch| (s.policy_id, s.original@))
}

impl GovernorGuard {
    /// Whether the guard holds the policies.
    pub closed spec fn is_active_spec(&self) -> bool {
        self.active
    }

    /// The remembered governors, in the order they were taken.
    pub closed spec fn snaps(&self) -> Seq<(i32, Seq<char>)> {
        self.snapshots@.map_values(|s: GovernorSnapshot| (s.policy_id, s.original@))
    }

    /// The guard is active exactly while it remembers governors; each
    /// policy is remembered once, with a non-empty trimmed governor.
    pub open spec fn wf(&self) -> bool {
        &&& (self.is_active_spec() <==> self.snaps().len() > 0)
        &&& distinct_ids(self.snaps())
        &&& all_trimmed(self.snaps())
    }

    pub fn new() -> (r: GovernorGuard)
        ensures
            r.wf(),
            !r.is_active_spec(),
            r.snaps() == Seq::<(i32, Seq<char>)>::empty(),
    {
        let r = GovernorGuard { snapshots: Vec::new(), active: false };
        proof {
            assert(r.snaps() =~= Seq::<(i32, Seq<char>)>::empty());
        }
        r
    }

    pub fn is_active(&self) -> (r: bool)
        ensures
            r == self.is_active_spec(),
    {
        self.active
    }

    /// The switches an activation makes: none while the guard is already
    /// active; otherwise one per policy whose governor could be read and is
    /// not blank, each writing `performance` to that policy's
    /// `scaling_governor`.
    pub fn activation_plan(&self, readings: &Vec<(i32, Option<String>)>) -> (r: Vec<GovernorSwitch>)
        ensures
            self.is_active_spec() ==> r@.len() == 0,
            !self.is_active_spec() ==> switches_view(r@) == takeover_plan(readings_view(readings@)),
            forall|k: int| 0 <= k < r@.len() ==> (#[trigger] r@[k]).path@ == policy_path(
                r@[k].policy_id as int,
                "scaling_governor"@,
            ) && r@[k].value@ == "performance"@,
            forall|k: int| 0 <= k < r@.len() ==> (#[trigger] r@[k]).original@.len() > 0 && trim(
                r@[k].original@,
            ) == r@[k].original@,
    {
        let mut out: Vec<GovernorSwitch> = Vec::new();
        if self.active {
            return out;
        }
        let ghost rv = readings_view(readings@);
        let mut i: usize = 0;
        while i < readings.len()
            invariant
                i <= readings.len(),
                rv == readings_view(readings@),
                switches_view(out@) == takeover_plan(rv.take(i as int)),
                forall|k: int| 0 <= k < out@.len() ==> (#[trigger] out@[k]).path@ == policy_path(
                    out@[k].policy_id as int,
                    "scaling_governor"@,
                ) && out@[k].value@ == "performance"@,
                forall|k: int| 0 <= k < out@.len() ==> (#[trigger] out@[k]).original@.len() > 0 && trim(
                    out@[k].original@,
                ) == out@[k].original@,
            decreases readings.len() - i,
        {
            proof {
                assert(rv.take(i + 1).drop_last() =~= rv.take(i as int));
                assert(rv.take(i + 1).last() == rv[i as int]);
            }
            let id = readings[i].0;
            match &readings[i].1 {
                Some(text) => {
                    let t = trim_chars(str_to_chars(text.as_str()).as_slice());
                    if t.len() > 0 {
                        proof {
                            crate::text::lemma_trim_idempotent(text@);
                        }
                        let path = policy_node(id, "scaling_governor");
                        let ghost before = out@;
                        let value = chars_to_string(str_to_chars("performance"));
                        out.push(GovernorSwitch { policy_id: id, path, value, original: chars_to_string(t) });
                        proof {
                            assert(switches_view(out@) =~= switches_view(before).push(
                                (id, trim(text@)),
                            ));
                        }
                    }
                },
                None => {},
            }
            i += 1;
        }
        proof {
            assert(rv.take(readings.len() as int) =~= rv);
        }
        out
    }

    /// Records the outcome of the planned switches (`ok[k]`: the write of
    /// `plan[k]` succeeded). A successful switch remembers the governor it
    /// replaced; the guard becomes active once one switch succeeded.
    pub fn commit_activation(&mut self, plan: Vec<GovernorSwitch>, ok: &Vec<bool>)
        requires
            old(self).wf(),
            plan@.len() == ok@.len(),
            forall|k: int| 0 <= k < plan@.len() ==> (#[trigger] plan@[k]).original@.len() > 0 && trim(
                plan@[k].original@,
            ) == plan@[k].original@,
        ensures
            final(self).wf(),
            final(self).snaps() == commit_spec(old(self).snaps(), switches_view(plan@), ok@),
            final(self).is_active_spec() == (old(self).is_active_spec() || ok@.contains(true)),
    {
        let ghost pv = switches_view(plan@);
        let ghost s0 = self.snaps();
        let mut plan = plan;
        let mut i: usize = 0;
        let mut any = false;
        proof {
            assert(pv.take(0) =~= Seq::<(i32, Seq<char>)>::empty());
            assert(ok@.take(0) =~= Seq::<bool>::empty());
        }
        while i < plan.len()
            invariant
                i <= plan.len(),
                plan@.len() == ok@.len(),
                pv == switches_view(plan@),
                self.snaps() == commit_spec(s0, pv.take(i as int), ok@.take(i as int)),
                distinct_ids(self.snaps()),
                any == ok@.take(i as int).contains(true),
                s0.len() > 0 <==> old(self).is_active_spec(),
                self.snaps().len() > 0 <==> (any || old(self).is_active_spec()),
                all_trimmed(self.snaps()),
                forall|k: int| 0 <= k < plan@.len() ==> (#[trigger] plan@[k]).original@.len() > 0 && trim(
                    plan@[k].original@,
                ) == plan@[k].original@,
                self.active == old(self).active,
            decreases plan.len() - i,
        {
            proof {
                assert(pv.take(i + 1).drop_last() =~= pv.take(i as int));
                assert(ok@.take(i + 1).drop_last() =~= ok@.take(i as int));
                assert(pv.take(i + 1).last() == pv[i as int]);
                assert(ok@.take(i + 1).last() == ok@[i as int]);
                assert(ok@.take(i + 1) =~= ok@.take(i as int).push(ok@[i as int]));
            }
            if ok[i] {
                let id = plan[i].policy_id;
                let orig = chars_to_string(str_to_chars(plan[i].original.as_str()));
                self.remove_policy(id);
                let ghost before = self.snapshots@;
                self.snapshots.push(GovernorSnapshot { policy_id: id, original: orig });
                proof {
                    assert(self.snaps() =~= remove_id(
                        commit_spec(s0, pv.take(i as int), ok@.take(i as int)),
                        id,
                    ).push((id, pv[i as int].1)));
                    lemma_remove_id_push_distinct(
                        commit_spec(s0, pv.take(i as int), ok@.take(i as int)),
                        id,
                        pv[i as int].1,
                    );
                    lemma_remove_id_trimmed(commit_spec(s0, pv.take(i as int), ok@.take(i as int)), id);
                    assert(pv[i as int].1 == plan@[i as int].original@);
                }
                any = true;
            }
            i += 1;
        }
        proof {
            assert(pv.take(plan.len() as int) =~= pv);
            assert(ok@.take(plan.len() as int) =~= ok@);
        }
        if any {
            self.active = true;
        }
    }

    fn remove_policy(&mut self, id: i32)
        requires
            distinct_ids(old(self).snaps()),
        ensures
            final(self).snaps() == remove_id(old(self).snaps(), id),
            final(self).active == old(self).active,
    {
        let ghost s0 = self.snaps();
        let mut kept: Vec<GovernorSnapshot> = Vec::new();
        let mut old_snaps: Vec<GovernorSnapshot> = Vec::new();
        std::mem::swap(&mut old_snaps, &mut self.snapshots);
        let ghost ov = old_snaps@;
        proof {
            assert(ov.map_values(|s: GovernorSnapshot| (s.policy_id, s.original@)) == s0);
        }
        let mut i: usize = 0;
        while i < old_snaps.len()
            invariant
                i <= old_snaps.len(),
                old_snaps@ == ov,
                s0 == ov.map_values(|s: GovernorSnapshot| (s.policy_id, s.original@)),
                kept@.map_values(|s: GovernorSnapshot| (s.policy_id, s.original@)) == remove_id(
                    s0.take(i as int),
                    id,
                ),
            decreases old_snaps.len() - i,
        {
            proof {
                assert(s0.take(i + 1).drop_last() =~= s0.take(i as int));
                assert(s0.take(i + 1).last() == s0[i as int]);
            }
            if old_snaps[i].policy_id != id {
                let s = GovernorSnapshot {
                    policy_id: old_snaps[i].policy_id,
                    original: chars_to_string(str_to_chars(old_snaps[i].original.as_str())),
                };
                let ghost before = kept@;
                kept.push(s);
                proof {
                    assert(kept@.map_values(|s: GovernorSnapshot| (s.policy_id, s.original@))
                        =~= before.map_values(|s: GovernorSnapshot| (s.policy_id, s.original@)).push(
                        s0[i as int],
                    ));
                }
            }
            i += 1;
        }
        proof {
            assert(s0.take(old_snaps.len() as int) =~= s0);
        }
        self.snapshots = kept;
    }

    /// Releases the guard: while active, the remembered governors are to be
    /// written back in the order they were taken, and the guard forgets them
    /// and goes idle; while idle nothing is written.
    pub fn release(&mut self) -> (r: Vec<NodeWrite>)
        requires
            old(self).wf(),
        ensures
            final(self).wf(),
            !final(self).is_active_spec(),
            final(self).snaps().len() == 0,
            old(self).is_active_spec() ==> writes_view(r@) == restore_writes(old(self).snaps()),
            !old(self).is_active_spec() ==> r@.len() == 0,
    {
        let mut out: Vec<NodeWrite> = Vec::new();
        if !self.active {
            return out;
        }
        let ghost s0 = self.snaps();
        let mut i: usize = 0;
        while i < self.snapshots.len()
            invariant
                i <= self.snapshots.len(),
                s0 == self.snaps(),
                writes_view(out@) == restore_writes(s0.take(i as int)),
            decreases self.snapshots.len() - i,
        {
            let path = policy_node(self.snapshots[i].policy_id, "scaling_governor");
            let w = node_write(path, self.snapshots[i].original.as_str());
            let ghost before = out@;
            out.push(w);
            proof {
                assert(s0[i as int] == (self.snapshots@[i as int].policy_id, self.snapshots@[i as int].original@));
                assert(writes_view(out@) =~= writes_view(before).push(
                    (policy_path(s0[i as int].0 as int, "scaling_governor"@), s0[i as int].1),
                ));
                assert(restore_writes(s0.take(i + 1)) =~= restore_writes(s0.take(i as int)).push(
                    (policy_path(s0[i as int].0 as int, "scaling_governor"@), s0[i as int].1),
                ));
            }
            i += 1;
        }
        proof {
            assert(s0.take(self.snapshots.len() as int) =~= s0);
        }
        self.snapshots = Vec::new();
        self.active = false;
        proof {
            assert(self.snaps() =~= Seq::<(i32, Seq<char>)>::empty());
        }
        out
    }

    /// Start-up cleanup: a policy left on `performance` (the daemon was
    /// killed while holding it) is set back to `schedutil`; other values
    /// are left alone.
    pub fn cleanup_residue(readings: &Vec<(i32, Option<String>)>) -> (r: Vec<NodeWrite>)
        ensures
            writes_view(r@) == residue_ids(readings_view(readings@)).map_values(
                |id: i32| (policy_path(id as int, "scaling_governor"@), "schedutil"@),
            ),
    {
        let ids = Self::report_residue(readings);
        let mut out: Vec<NodeWrite> = Vec::new();
        let mut i: usize = 0;
        while i < ids.len()
            invariant
                i <= ids.len(),
                writes_view(out@) == ids@.take(i as int).map_values(
                    |id: i32| (policy_path(id as int, "scaling_governor"@), "schedutil"@),
                ),
            decreases ids.len() - i,
        {
            let w = node_write(policy_node(ids[i], "scaling_governor"), "schedutil");
            let ghost before = out@;
            out.push(w);
            proof {
                assert(writes_view(out@) =~= writes_view(before).push(
                    (policy_path(ids@[i as int] as int, "scaling_governor"@), "schedutil"@),
                ));
                assert(ids@.take(i + 1).map_values(
                    |id: i32| (policy_path(id as int, "scaling_governor"@), "schedutil"@),
                ) =~= ids@.take(i as int).map_values(
                    |id: i32| (policy_path(id as int, "scaling_governor"@), "schedutil"@),
                ).push((policy_path(ids@[i as int] as int, "scaling_governor"@), "schedutil"@)));
            }
            i += 1;
        }
        proof {
            assert(ids@.take(ids.len() as int) =~= ids@);
        }
        out
    }

    /// The same check while scheduling is stopped: the policies found on
    /// `performance` are only reported, nothing is written.
    pub fn report_residue(readings: &Vec<(i32, Option<String>)>) -> (r: Vec<i32>)
        ensures
            r@ == residue_ids(readings_view(readings@)),
    {
        let ghost rv = readings_view(readings@);
        let mut out: Vec<i32> = Vec::new();
        let mut i: usize = 0;
        while i < readings.len()
            invariant
                i <= readings.len(),
                rv == readings_view(readings@),
                out@ == residue_ids(rv.take(i as int)),
            decreases readings.len() - i,
        {
            proof {
                assert(rv.take(i + 1).drop_last() =~= rv.take(i as int));
                assert(rv.take(i + 1).last() == rv[i as int]);
            }
            match &readings[i].1 {
                Some(text) => {
                    let t = trim_chars(str_to_chars(text.as_str()).as_slice());
                    let perf = str_to_chars("performance");
                    if crate::text::chars_eq(t.as_slice(), perf.as_slice()) {
                        out.push(readings[i].0);
                    }
                },
                None => {},
            }
            i += 1;
        }
        proof {
            assert(rv.take(readings.len() as int) =~= rv);
        }
        out
    }
}

/// The policies whose governor reads `performance` (trimmed), in order;
/// unreadable policies are skipped.
pub open spec fn residue_ids(rs: Seq<(i32, Option<Seq<char>>)>) -> Seq<i32>
    decreases rs.len(),
{
    if rs.len() == 0 {
        Seq::empty()
    } else {
        let p = residue_ids(rs.drop_last());
        match rs.last().1 {
            Some(t) => if trim(t) == "performance"@ {
                p.push(rs.last().0)
            } else {
                p
            },
            None => p,
        }
    }
}

proof fn lemma_remove_id_absent(snaps: Seq<(i32, Seq<char>)>, id: i32)
    ensures
        forall|k: int| 0 <= k < remove_id(snaps, id).len() ==> remove_id(snaps, id)[k].0 != id,
        forall|k: int| 0 <= k < remove_id(snaps, id).len() ==> snaps.contains(remove_id(snaps, id)[k]),
        distinct_ids(snaps) ==> distinct_ids(remove_id(snaps, id)),
    decreases snaps.len(),
{
    if snaps.len() > 0 {
        lemma_remove_id_absent(snaps.drop_last(), id);
        let r = remove_id(snaps.drop_last(), id);
        assert forall|k: int| 0 <= k < r.len() implies snaps.contains(#[trigger] r[k]) by {
            let j = choose|j: int| 0 <= j < snaps.drop_last().len() && snaps.drop_last()[j] == r[k];
            assert(snaps[j] == r[k]);
        }
        if distinct_ids(snaps) {
            assert(distinct_ids(snaps.drop_last()));
            if snaps.last().0 != id {
                assert forall|k: int| 0 <= k < r.len() implies #[trigger] r[k].0 != snaps.last().0 by {
                    let j = choose|j: int| 0 <= j < snaps.drop_last().len() && snaps.drop_last()[j] == r[k];
                    assert(snaps[j] == r[k]);
                    assert(j < snaps.len() - 1);
                }
            }
        }
        assert(snaps.contains(snaps.last())) by {
            assert(snaps[snaps.len() - 1] == snaps.last());
        }
    }
}

proof fn lemma_remove_id_trimmed(snaps: Seq<(i32, Seq<char>)>, id: i32)
    requires
        all_trimmed(snaps),
    ensures
        all_trimmed(remove_id(snaps, id)),
{
    lemma_remove_id_absent(snaps, id);
    let r = remove_id(snaps, id);
    assert forall|k: int| 0 <= k < r.len() implies #[trigger] r[k].1.len() > 0 && trim(r[k].1) == r[k].1 by {
        let j = choose|j: int| 0 <= j < snaps.len() && snaps[j] == r[k];
        assert(snaps[j].1.len() > 0);
    }
}

proof fn lemma_remove_id_push_distinct(snaps: Seq<(i32, Seq<char>)>, id: i32, orig: Seq<char>)
    requires
        distinct_ids(snaps),
    ensures
        distinct_ids(remove_id(snaps, id).push((id, orig))),
{
    lemma_remove_id_absent(snaps, id);
}

/// With every policy read once, a release after a fully successful
/// activation writes back exactly the governors the activation found, one
/// per policy taken over, in the same order: each policy whose governor
/// read `g` (trimmed, not blank) gets `g` written back, and `g` reads back
/// trimmed as itself.
pub proof fn law_release_restores_activation(rs: Seq<(i32, Option<Seq<char>>)>)
    requires
        forall|i: int, j: int| 0 <= i < j < rs.len() ==> rs[i].0 != rs[j].0,
    ensures
        restore_writes(
            commit_spec(
                Seq::empty(),
                takeover_plan(rs),
                Seq::new(takeover_plan(rs).len(), |k: int| true),
            ),
        ) == restore_writes(takeover_plan(rs)),
        forall|k: int|
            0 <= k < rs.len() && (#[trigger] takeover_original_spec(rs[k].1)) is Some ==> {
                let g = takeover_original_spec(rs[k].1)->0;
                &&& restore_writes(takeover_plan(rs)).contains(
                    (policy_path(rs[k].0 as int, "scaling_governor"@), g),
                )
                &&& trim(g) == g
            },
{
    lemma_commit_all_ok(rs);
    lemma_plan_contains(rs);
    assert forall|k: int|
        0 <= k < rs.len() && (#[trigger] takeover_original_spec(rs[k].1)) is Some implies {
            let g = takeover_original_spec(rs[k].1)->0;
            &&& restore_writes(takeover_plan(rs)).contains(
                (policy_path(rs[k].0 as int, "scaling_governor"@), g),
            )
            &&& trim(g) == g
        } by {
        let g = takeover_original_spec(rs[k].1)->0;
        let p = takeover_plan(rs);
        let j = choose|j: int| 0 <= j < p.len() && p[j] == (rs[k].0, g);
        assert(restore_writes(p)[j] == (policy_path(rs[k].0 as int, "scaling_governor"@), g));
        crate::text::lemma_trim_idempotent(rs[k].1->0);
    }
}

proof fn lemma_plan_contains(rs: Seq<(i32, Option<Seq<char>>)>)
    ensures
        forall|k: int|
            0 <= k < rs.len() && (#[trigger] takeover_original_spec(rs[k].1)) is Some ==> takeover_plan(
                rs,
            ).contains((rs[k].0, takeover_original_spec(rs[k].1)->0)),
    decreases rs.len(),
{
    if rs.len() > 0 {
        let rd = rs.drop_last();
        lemma_plan_contains(rd);
        let p = takeover_plan(rd);
        let q = takeover_plan(rs);
        assert forall|k: int|
            0 <= k < rs.len() && (#[trigger] takeover_original_spec(rs[k].1)) is Some implies q.contains(
                (rs[k].0, takeover_original_spec(rs[k].1)->0),
            ) by {
            if k < rs.len() - 1 {
                assert(rd[k] == rs[k]);
                assert(takeover_original_spec(rd[k].1) is Some);
                let j = choose|j: int| 0 <= j < p.len() && p[j] == (rd[k].0, takeover_original_spec(rd[k].1)->0);
                match takeover_original_spec(rs.last().1) {
                    Some(o) => {
                        assert(q == p.push((rs.last().0, o)));
                        assert(q[j] == p[j]);
                    },
                    None => {},
                }
            } else {
                assert(q == p.push((rs.last().0, takeover_original_spec(rs.last().1)->0)));
                assert(q[q.len() - 1] == (rs[k].0, takeover_original_spec(rs[k].1)->0));
            }
        }
    }
}

proof fn lemma_plan_ids_from(rs: Seq<(i32, Option<Seq<char>>)>)
    ensures
        forall|k: int| 0 <= k < takeover_plan(rs).len() ==> exists|j: int| 0 <= j < rs.len()
            && #[trigger] takeover_plan(rs)[k].0 == rs[j].0,
    decreases rs.len(),
{
    if rs.len() > 0 {
        lemma_plan_ids_from(rs.drop_last());
        let p = takeover_plan(rs.drop_last());
        assert forall|k: int| 0 <= k < takeover_plan(rs).len() implies exists|j: int| 0 <= j < rs.len()
            && #[trigger] takeover_plan(rs)[k].0 == rs[j].0 by {
            if k < p.len() {
                let j = choose|j: int| 0 <= j < rs.drop_last().len() && p[k].0 == rs.drop_last()[j].0;
                assert(rs[j] == rs.drop_last()[j]);
            } else {
                assert(takeover_plan(rs)[k].0 == rs[rs.len() - 1].0);
            }
        }
    }
}

proof fn lemma_commit_all_ok(rs: Seq<(i32, Option<Seq<char>>)>)
    requires
        forall|i: int, j: int| 0 <= i < j < rs.len() ==> rs[i].0 != rs[j].0,
    ensures
        commit_spec(
            Seq::empty(),
            takeover_plan(rs),
            Seq::new(takeover_plan(rs).len(), |k: int| true),
        ) == takeover_plan(rs),
        distinct_ids(takeover_plan(rs)),
    decreases rs.len(),
{
    if rs.len() > 0 {
        let rd = rs.drop_last();
        lemma_commit_all_ok(rd);
        lemma_plan_ids_from(rd);
        let p = takeover_plan(rd);
        let q = takeover_plan(rs);
        let okq = Seq::new(q.len(), |k: int| true);
        let okp = Seq::new(p.len(), |k: int| true);
        match takeover_original_spec(rs.last().1) {
            Some(o) => {
                assert(q == p.push((rs.last().0, o)));
                assert(q.drop_last() =~= p);
                assert(okq.drop_last() =~= okp);
                assert forall|k: int| 0 <= k < p.len() implies #[trigger] p[k].0 != rs.last().0 by {
                    let j = choose|j: int| 0 <= j < rd.len() && p[k].0 == rd[j].0;
                    assert(rd[j] == rs[j]);
                }
                lemma_remove_id_noop(p, rs.last().0);
                assert(distinct_ids(q));
            },
            None => {
                assert(q == p);
            },
        }
    }
}

proof fn lemma_remove_id_noop(snaps: Seq<(i32, Seq<char>)>, id: i32)
    requires
        forall|k: int| 0 <= k < snaps.len() ==> #[trigger] snaps[k].0 != id,
    ensures
        remove_id(snaps, id) == snaps,
    decreases snaps.len(),
{
    if snaps.len() > 0 {
        lemma_remove_id_noop(snaps.drop_last(), id);
        assert(snaps.drop_last().push(snaps.last()) =~= snaps);
    }
}


/// A governor reading that is `performance` once trimmed.
pub open spec fn reads_performance(read: Option<Seq<char>>) -> bool {
    match read {
        Some(t) => trim(t) == "performance"@,
        None => false,
    }
}

/// Every policy whose governor reads `performance` (trimmed) is reported,
/// and only those: the start-up cleanup sets back every leftover
/// `performance`, not just the first.
pub proof fn law_residue_exact(rs: Seq<(i32, Option<Seq<char>>)>)
    ensures
        forall|k: int|
            0 <= k < rs.len() && reads_performance((#[trigger] rs[k]).1)
                ==> residue_ids(rs).contains(rs[k].0),
        forall|j: int|
            0 <= j < residue_ids(rs).len() ==> exists|k: int|
                0 <= k < rs.len() && (#[trigger] rs[k]).0 == #[trigger] residue_ids(rs)[j] && reads_performance(rs[k].1),
        residue_ids(rs).len() <= rs.len(),
    decreases rs.len(),
{
    if rs.len() > 0 {
        let rd = rs.drop_last();
        law_residue_exact(rd);
        let p = residue_ids(rd);
        let q = residue_ids(rs);
        assert forall|k: int|
            0 <= k < rs.len() && reads_performance((#[trigger] rs[k]).1)
                implies q.contains(rs[k].0) by {
            if k < rs.len() - 1 {
                assert(rd[k] == rs[k]);
                let j = choose|j: int| 0 <= j < p.len() && p[j] == rd[k].0;
                assert(q[j] == p[j]);
            } else {
                assert(q[q.len() - 1] == rs[k].0);
            }
        }
        assert forall|j: int| 0 <= j < q.len() implies exists|k: int|
            0 <= k < rs.len() && (#[trigger] rs[k]).0 == #[trigger] q[j] && reads_performance(rs[k].1) by {
            if j < p.len() {
                assert(q[j] == p[j]);
                let k = choose|k: int|
                    0 <= k < rd.len() && (#[trigger] rd[k]).0 == p[j] && reads_performance(rd[k].1);
                assert(rs[k] == rd[k]);
            } else {
                assert(rs[rs.len() - 1] == rs.last());
            }
        }
    }
}

} // verus!
