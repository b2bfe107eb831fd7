//! The cgroup layout of the affinity controller: boost narrows top-app and
//! foreground to the big and prime cores and pins background groups to the
//! little cores; normal gives top-app back; release restores the snapshot.
//! Also the top-app `cpu.uclamp.max` handling and the static lab grouping.
use vstd::prelude::*;
use crate::affinity::{
    all_cores_list, big_list, big_plus_prime_list, cpuset_cpus_path, little_list, little_pair_list,
    pairs_view, range_text, write_cpuset_cpus_items, write_cpuset_paths_items,
};
use crate::common::CoreGroupRanges;
use crate::core_ctl::{nonblank_spec, ostr, read_nonblank};
use crate::lists::opt_view;
use crate::sysfs::{append_writes, writes_view, NodeWrite};
use crate::text::{chars_to_string, contains_seq, chars_contains, dec, push_all, str_eq, str_to_chars, u64_to_string};

verus! {

/// The top-app `cpu.uclamp.max` node.
pub open spec fn uclamp_max_path() -> Seq<char> {
    "/dev/cpuctl/top-app/cpu.uclamp.max"@
}

/// The top-app `cpu.uclamp.min` node.
pub open spec fn uclamp_min_path() -> Seq<char> {
    "/dev/cpuctl/top-app/cpu.uclamp.min"@
}

/// uclamp needs kernel 5.3 or later.
pub open spec fn uclamp_version_ok_spec(ver: Option<(u32, u32, u32)>) -> bool {
    match ver {
        Some((a, b, _)) => a > 5 || (a == 5 && b >= 3),
        None => false,
    }
}

pub fn uclamp_version_ok(ver: Option<(u32, u32, u32)>) -> (r: bool)
    ensures
        r == uclamp_version_ok_spec(ver),
{
    match ver {
        Some((a, b, _)) => a > 5 || (a == 5 && b >= 3),
        None => false,
    }
}

/// Whether top-app `cpu.uclamp.max` can be used.
#[derive(PartialEq, Eq, Structural, Clone, Copy)]
pub enum UclampSupport {
    Unknown,
    Available,
    Unsupported,
}

/// The layout applied last.
#[derive(PartialEq, Eq, Structural, Clone, Copy)]
pub enum LayoutKind {
    Unapplied,
    Boost,
    Normal,
}

/// Which cgroups exist on the device.
pub struct CgroupPresence {
    pub top_app: bool,
    pub foreground: bool,
    pub background: bool,
    pub system_background: bool,
    pub restricted: bool,
    pub cpuctl_top_app: bool,
}

/// `{pct}.00`, the uclamp value of a percentage.
pub open spec fn pct_value(pct: u32) -> Seq<char> {
    dec(pct as nat) + ".00"@
}

pub fn pct_string(pct: u32) -> (r: String)
    ensures
        r@ == pct_value(pct),
{
    let mut out = crate::text::dec_chars(pct as u64);
    push_all(&mut out, str_to_chars(".00").as_slice());
    chars_to_string(out)
}

fn write_to(path: &str, value: &str) -> (r: NodeWrite)
    ensures
        r.path@ == path@,
        r.value@ == value@,
{
    NodeWrite { path: chars_to_string(str_to_chars(path)), value: chars_to_string(str_to_chars(value)) }
}

/// The background groups pinned to the little cores, each only when it
/// exists.
pub open spec fn pin_background_spec(p: CgroupPresence, little: Seq<char>) -> Seq<(Seq<char>, Seq<char>)> {
    (if p.background {
        seq![(cpuset_cpus_path("background"@), little)]
    } else {
        Seq::empty()
    }) + (if p.system_background {
        seq![(cpuset_cpus_path("system-background"@), little)]
    } else {
        Seq::empty()
    }) + (if p.restricted {
        seq![(cpuset_cpus_path("restricted"@), little)]
    } else {
        Seq::empty()
    })
}

fn push_items(out: &mut Vec<NodeWrite>, items: &Vec<(String, String)>)
    ensures
        writes_view(final(out)@) == writes_view(old(out)@) + pairs_view(items@).map_values(
            |p: (Seq<char>, Seq<char>)| (cpuset_cpus_path(p.0), p.1),
        ),
{
    let w = write_cpuset_cpus_items(items);
    append_writes(out, &w);
}

fn push_pair(v: &mut Vec<(String, String)>, a: &str, b: &str)
    ensures
        pairs_view(final(v)@) == pairs_view(old(v)@).push((a@, b@)),
{
    let ghost before = v@;
    v.push((chars_to_string(str_to_chars(a)), chars_to_string(str_to_chars(b))));
    proof {
        assert(pairs_view(v@) =~= pairs_view(before).push((a@, b@)));
    }
}

/// Pins the existing background groups to `little`.
pub fn pin_background(p: &CgroupPresence, little: &str) -> (r: Vec<NodeWrite>)
    ensures
        writes_view(r@) == pin_background_spec(*p, little@),
{
    let mut items: Vec<(String, String)> = Vec::new();
    if p.background {
        push_pair(&mut items, "background", little);
    }
    if p.system_background {
        push_pair(&mut items, "system-background", little);
    }
    if p.restricted {
        push_pair(&mut items, "restricted", little);
    }
    let r = write_cpuset_cpus_items(&items);
    proof {
        assert(writes_view(r@) =~= pin_background_spec(*p, little@));
    }
    r
}

/// The groups whose cpus are snapshotted before the first boost, in order.
pub open spec fn snapshot_groups_spec() -> Seq<Seq<char>> {
    seq!["background"@, "system-background"@, "restricted"@, "top-app"@, "foreground"@]
}

pub fn snapshot_groups() -> (r: Vec<&'static str>)
    ensures
        r@.map_values(|s: &str| s@) == snapshot_groups_spec(),
{
    let r = vec!["background", "system-background", "restricted", "top-app", "foreground"];
    proof {
        assert(r@.map_values(|s: &str| s@) =~= snapshot_groups_spec());
    }
    r
}

/// The snapshot of the group readings: each readable (not blank) group's
/// `cpus` node and value.
pub open spec fn group_snapshot_spec(reads: Seq<(Seq<char>, Option<Seq<char>>)>) -> Seq<(Seq<char>, Seq<char>)>
    decreases reads.len(),
{
    if reads.len() == 0 {
        Seq::empty()
    } else {
        let p = group_snapshot_spec(reads.drop_last());
        match nonblank_spec(reads.last().1) {
            Some(v) => p.push((cpuset_cpus_path(reads.last().0), v)),
            None => p,
        }
    }
}

/// The snapshot entries restored when leaving boost: those of top-app and
/// foreground.
pub open spec fn fg_entries(snap: Seq<(Seq<char>, Seq<char>)>) -> Seq<(Seq<char>, Seq<char>)>
    decreases snap.len(),
{
    if snap.len() == 0 {
        Seq::empty()
    } else {
        let p = fg_entries(snap.drop_last());
        if contains_seq(snap.last().0, "top-app"@) || contains_seq(snap.last().0, "foreground"@) {
            p.push(snap.last())
        } else {
            p
        }
    }
}

/// What one `apply` round does to the layout.
pub struct LayoutPlan {
    /// The cgroup writes of the round, in order.
    pub writes: Vec<NodeWrite>,
    /// Top-app uclamp.max is to be applied (boost entry).
    pub apply_uclamp_max: bool,
}

/// The cgroup layout held: snapshots, what was applied, the override and
/// the lab grouping.
pub struct AffinityLayout {
    /// (cpus node, value) of the snapshotted groups; none before the first
    /// boost.
    pub snapshot: Option<Vec<(String, String)>>,
    pub uclamp_snapshot: Option<String>,
    pub uclamp_max_snapshot: Option<String>,
    pub uclamp_max_support: UclampSupport,
    pub applied_kind: LayoutKind,
    pub last_fg_pid: i32,
    pub last_boost: bool,
    pub last_rebalance_ms: u64,
    /// top-app uclamp.max before the boost override (none: no override).
    pub boost_uclamp_prev: Option<String>,
    /// The static lab grouping in effect.
    pub lab_static_mode: Option<String>,
    /// (group, original cpus) of the groups the lab grouping changed.
    pub lab_group_snapshot: Vec<(String, String)>,
}

impl AffinityLayout {
    pub fn new(now_ms: u64) -> (r: AffinityLayout)
        ensures
            r.snapshot is None,
            r.applied_kind == LayoutKind::Unapplied,
            r.uclamp_max_support == UclampSupport::Unknown,
            r.lab_static_mode is None,
            r.boost_uclamp_prev is None,
            r.last_fg_pid == 0,
            !r.last_boost,
            r.last_rebalance_ms == now_ms,
    {
        AffinityLayout {
            snapshot: None,
            uclamp_snapshot: None,
            uclamp_max_snapshot: None,
            uclamp_max_support: UclampSupport::Unknown,
            applied_kind: LayoutKind::Unapplied,
            last_fg_pid: 0,
            last_boost: false,
            last_rebalance_ms: now_ms,
            boost_uclamp_prev: None,
            lab_static_mode: None,
            lab_group_snapshot: Vec::new(),
        }
    }

    /// Holding something: a layout applied or a lab grouping in effect.
    pub fn is_active(&self) -> (r: bool)
        ensures
            r == (self.applied_kind != LayoutKind::Unapplied || self.lab_static_mode is Some),
    {
        self.applied_kind != LayoutKind::Unapplied || self.lab_static_mode.is_some()
    }

    /// Takes the snapshot once, before the first boost: the readable groups
    /// (`reads`, in `snapshot_groups` order) and the top-app uclamp values
    /// (trimmed; unreadable or blank recorded as empty).
    pub fn ensure_snapshot(
        &mut self,
        reads: &Vec<(String, Option<String>)>,
        uclamp_read: Option<&str>,
        uclamp_max_read: Option<&str>,
    )
        ensures
            old(self).snapshot is Some ==> *final(self) == *old(self),
            old(self).snapshot is None ==> (final(self).snapshot matches Some(s) && pairs_view(s@)
                == group_snapshot_spec(crate::affinity::reads_view(reads@))),
            old(self).snapshot is None ==> opt_view(
                final(self).uclamp_snapshot,
            ) == Some(
                match nonblank_spec(ostr(uclamp_read)) {
                    Some(v) => v,
                    None => Seq::<char>::empty(),
                },
            ) && opt_view(final(self).uclamp_max_snapshot) == Some(
                match nonblank_spec(ostr(uclamp_max_read)) {
                    Some(v) => v,
                    None => Seq::<char>::empty(),
                },
            ) && final(self).applied_kind == old(self).applied_kind && final(self).lab_static_mode
                == old(self).lab_static_mode,
    {
        if self.snapshot.is_some() {
            return;
        }
        let ghost rv = crate::affinity::reads_view(reads@);
        let mut snap: Vec<(String, String)> = Vec::new();
        let mut i: usize = 0;
        while i < reads.len()
            invariant
                i <= reads.len(),
                rv == crate::affinity::reads_view(reads@),
                pairs_view(snap@) == group_snapshot_spec(rv.take(i as int)),
            decreases reads.len() - i,
        {
            proof {
                assert(rv.take(i + 1).drop_last() =~= rv.take(i as int));
                assert(rv.take(i + 1).last() == rv[i as int]);
            }
            match read_nonblank(match &reads[i].1 {
                Some(t) => Some(t.as_str()),
                None => None,
            }) {
                Some(v) => {
                    let mut p = str_to_chars("/dev/cpuset/");
                    push_all(&mut p, str_to_chars(reads[i].0.as_str()).as_slice());
                    push_all(&mut p, str_to_chars("/cpus").as_slice());
                    let path = chars_to_string(p);
                    push_pair(&mut snap, path.as_str(), v.as_str());
                },
                None => {},
            }
            i += 1;
        }
        proof {
            assert(rv.take(reads.len() as int) =~= rv);
        }
        self.snapshot = Some(snap);
        self.uclamp_snapshot = Some(match read_nonblank(uclamp_read) {
            Some(v) => v,
            None => String::new(),
        });
        self.uclamp_max_snapshot = Some(match read_nonblank(uclamp_max_read) {
            Some(v) => v,
            None => String::new(),
        });
    }

    /// The writes that restore the snapshotted uclamp values (empty values
    /// are not written): min, then max.
    pub fn restore_uclamp_writes(&self) -> (r: Vec<NodeWrite>)
        ensures
            writes_view(r@) == (match opt_view(self.uclamp_snapshot) {
                Some(v) => if v.len() > 0 {
                    seq![(uclamp_min_path(), v)]
                } else {
                    Seq::empty()
                },
                None => Seq::empty(),
            }) + (match opt_view(self.uclamp_max_snapshot) {
                Some(v) => if v.len() > 0 {
                    seq![(uclamp_max_path(), v)]
                } else {
                    Seq::empty()
                },
                None => Seq::empty(),
            }),
    {
        let mut out: Vec<NodeWrite> = Vec::new();
        let ghost a: Seq<(Seq<char>, Seq<char>)> = match opt_view(self.uclamp_snapshot) {
            Some(v) => if v.len() > 0 {
                seq![(uclamp_min_path(), v)]
            } else {
                Seq::empty()
            },
            None => Seq::empty(),
        };
        match &self.uclamp_snapshot {
            Some(v) => {
                if str_to_chars(v.as_str()).len() > 0 {
                    out.push(write_to("/dev/cpuctl/top-app/cpu.uclamp.min", v.as_str()));
                }
            },
            None => {},
        }
        proof {
            assert(writes_view(out@) =~= a);
        }
        match &self.uclamp_max_snapshot {
            Some(v) => {
                if str_to_chars(v.as_str()).len() > 0 {
                    out.push(write_to("/dev/cpuctl/top-app/cpu.uclamp.max", v.as_str()));
                    proof {
                        assert(writes_view(out@) =~= a + seq![(uclamp_max_path(), v@)]);
                    }
                } else {
                    proof {
                        assert(writes_view(out@) =~= a + Seq::<(Seq<char>, Seq<char>)>::empty());
                    }
                }
            },
            None => {
                proof {
                    assert(writes_view(out@) =~= a + Seq::<(Seq<char>, Seq<char>)>::empty());
                }
            },
        }
        out
    }

    /// One layout round (after `ensure_snapshot` when boosting): entering
    /// boost narrows top-app and foreground to `boost_list`, writes the
    /// top-app uclamp.min when configured, asks for uclamp.max and pins the
    /// background groups to `little_list`; leaving boost restores top-app,
    /// foreground and the uclamp values; entering normal pins the
    /// background groups. A repeated round writes nothing.
    pub fn apply_plan(
        &mut self,
        boost: bool,
        boost_list: &str,
        little_list_v: &str,
        presence: &CgroupPresence,
        uclamp_min_pct: u32,
    ) -> (r: LayoutPlan)
        requires
            boost ==> old(self).snapshot is Some,
        ensures
            final(self).applied_kind == if boost {
                LayoutKind::Boost
            } else {
                LayoutKind::Normal
            },
            final(self).snapshot == old(self).snapshot,
            final(self).lab_static_mode == old(self).lab_static_mode,
            r.apply_uclamp_max == (boost && old(self).applied_kind != LayoutKind::Boost),
            boost && old(self).applied_kind == LayoutKind::Boost ==> r.writes@.len() == 0,
            boost && old(self).applied_kind != LayoutKind::Boost ==> writes_view(r.writes@) == (if presence.top_app {
                seq![(cpuset_cpus_path("top-app"@), boost_list@)]
            } else {
                Seq::empty()
            }) + (if presence.foreground {
                seq![(cpuset_cpus_path("foreground"@), boost_list@)]
            } else {
                Seq::empty()
            }) + (if uclamp_min_pct > 0 && presence.cpuctl_top_app {
                seq![(uclamp_min_path(), dec(uclamp_min_pct as nat))]
            } else {
                Seq::empty()
            }) + pin_background_spec(*presence, little_list_v@),
            !boost && old(self).applied_kind == LayoutKind::Normal ==> r.writes@.len() == 0,
            !boost && old(self).applied_kind == LayoutKind::Boost ==> writes_view(r.writes@) == (match old(
                self,
            ).snapshot {
                Some(s) => fg_entries(pairs_view(s@)),
                None => Seq::empty(),
            }) + old(self).restore_uclamp_writes_spec() + pin_background_spec(*presence, little_list_v@),
            !boost && old(self).applied_kind == LayoutKind::Unapplied ==> writes_view(r.writes@)
                == pin_background_spec(*presence, little_list_v@),
    {
        let old_kind = self.applied_kind;
        let mut writes: Vec<NodeWrite> = Vec::new();
        if boost {
            let mut apply_max = false;
            if old_kind != LayoutKind::Boost {
                let mut items: Vec<(String, String)> = Vec::new();
                if presence.top_app {
                    push_pair(&mut items, "top-app", boost_list);
                }
                if presence.foreground {
                    push_pair(&mut items, "foreground", boost_list);
                }
                push_items(&mut writes, &items);
                let ghost w1 = writes_view(writes@);
                proof {
                    assert(w1 =~= (if presence.top_app {
                        seq![(cpuset_cpus_path("top-app"@), boost_list@)]
                    } else {
                        Seq::<(Seq<char>, Seq<char>)>::empty()
                    }) + (if presence.foreground {
                        seq![(cpuset_cpus_path("foreground"@), boost_list@)]
                    } else {
                        Seq::<(Seq<char>, Seq<char>)>::empty()
                    }));
                }
                if uclamp_min_pct > 0 && presence.cpuctl_top_app {
                    let v = u64_to_string(uclamp_min_pct as u64);
                    writes.push(write_to("/dev/cpuctl/top-app/cpu.uclamp.min", v.as_str()));
                    proof {
                        assert(writes_view(writes@) =~= w1 + seq![(uclamp_min_path(), dec(uclamp_min_pct as nat))]);
                    }
                } else {
                    proof {
                        assert(writes_view(writes@) =~= w1 + Seq::<(Seq<char>, Seq<char>)>::empty());
                    }
                }
                let ghost w2 = writes_view(writes@);
                let pb = pin_background(presence, little_list_v);
                append_writes(&mut writes, &pb);
                apply_max = true;
            }
            self.applied_kind = LayoutKind::Boost;
            LayoutPlan { writes, apply_uclamp_max: apply_max }
        } else {
            if old_kind == LayoutKind::Boost {
                match &self.snapshot {
                    Some(snap) => {
                        let mut items: Vec<(String, String)> = Vec::new();
                        let mut i: usize = 0;
                        while i < snap.len()
                            invariant
                                i <= snap.len(),
                                pairs_view(items@) == fg_entries(pairs_view(snap@).take(i as int)),
                            decreases snap.len() - i,
                        {
                            proof {
                                assert(pairs_view(snap@).take(i + 1).drop_last() =~= pairs_view(snap@).take(i as int));
                                assert(pairs_view(snap@).take(i + 1).last() == (snap@[i as int].0@, snap@[i as int].1@));
                            }
                            let p = str_to_chars(snap[i].0.as_str());
                            if chars_contains(p.as_slice(), str_to_chars("top-app").as_slice())
                                || chars_contains(p.as_slice(), str_to_chars("foreground").as_slice()) {
                                push_pair(&mut items, snap[i].0.as_str(), snap[i].1.as_str());
                            }
                            i += 1;
                        }
                        proof {
                            assert(pairs_view(snap@).take(snap.len() as int) =~= pairs_view(snap@));
                        }
                        let w = write_cpuset_paths_items(&items);
                        append_writes(&mut writes, &w);
                        proof {
                            assert(writes_view(writes@) =~= fg_entries(pairs_view(snap@)));
                        }
                    },
                    None => {
                        proof {
                            assert(writes_view(writes@) =~= Seq::<(Seq<char>, Seq<char>)>::empty());
                        }
                    },
                }
                let u = self.restore_uclamp_writes();
                append_writes(&mut writes, &u);
            }
            if old_kind != LayoutKind::Normal {
                let ghost w0 = writes_view(writes@);
                let pb = pin_background(presence, little_list_v);
                append_writes(&mut writes, &pb);
                proof {
                    if old_kind == LayoutKind::Unapplied {
                        assert(w0 =~= Seq::<(Seq<char>, Seq<char>)>::empty());
                        assert(writes_view(writes@) =~= writes_view(pb@));
                    }
                }
            }
            self.applied_kind = LayoutKind::Normal;
            LayoutPlan { writes, apply_uclamp_max: false }
        }
    }

    /// Threads are rebalanced when pinning is on and the foreground or the
    /// boost state changed, or two seconds passed since the last round; a
    /// rebalance restarts the clock and remembers both.
    pub fn rebalance_due(&mut self, pin_foreground: bool, fg_pid: i32, boost: bool, now_ms: u64) -> (r: bool)
        ensures
            r == (pin_foreground && (fg_pid != old(self).last_fg_pid || boost != old(self).last_boost
                || now_ms >= old(self).last_rebalance_ms + 2000)),
            r ==> final(self).last_rebalance_ms == now_ms && final(self).last_fg_pid == fg_pid
                && final(self).last_boost == boost,
            !r ==> final(self).last_rebalance_ms == old(self).last_rebalance_ms && final(self).last_fg_pid
                == old(self).last_fg_pid && final(self).last_boost == old(self).last_boost,
            final(self).applied_kind == old(self).applied_kind,
            final(self).snapshot == old(self).snapshot,
    {
        let force = fg_pid != self.last_fg_pid || boost != self.last_boost;
        if pin_foreground && (force || now_ms.saturating_sub(self.last_rebalance_ms) >= 2000) {
            self.last_rebalance_ms = now_ms;
            self.last_fg_pid = fg_pid;
            self.last_boost = boost;
            true
        } else {
            false
        }
    }

    /// The top-app uclamp.max step of a boost entry (`pct` configured; the
    /// kernel version and whether the node exists probed once): nothing
    /// when `pct` is 0 or support is known to be missing; the probe marks
    /// it missing on an old kernel or a missing node; otherwise the write
    /// of `{pct}.00`, to be checked with `uclamp_max_verified`.
    pub fn uclamp_max_plan(&mut self, pct: u32, ver: Option<(u32, u32, u32)>, node_exists: bool) -> (r: Option<NodeWrite>)
        ensures
            pct == 0 || old(self).uclamp_max_support == UclampSupport::Unsupported ==> r is None
                && final(self).uclamp_max_support == old(self).uclamp_max_support,
            pct != 0 && old(self).uclamp_max_support == UclampSupport::Unknown && !(
            uclamp_version_ok_spec(ver) && node_exists) ==> r is None && final(self).uclamp_max_support
                == UclampSupport::Unsupported,
            r matches Some(w) ==> w.path@ == uclamp_max_path() && w.value@ == pct_value(pct)
                && final(self).uclamp_max_support == old(self).uclamp_max_support,
            (pct != 0 && (old(self).uclamp_max_support == UclampSupport::Available || (old(self).uclamp_max_support
                == UclampSupport::Unknown && uclamp_version_ok_spec(ver) && node_exists))) ==> r is Some,
            final(self).applied_kind == old(self).applied_kind,
            final(self).snapshot == old(self).snapshot,
            final(self).boost_uclamp_prev == old(self).boost_uclamp_prev,
    {
        if pct == 0 || self.uclamp_max_support == UclampSupport::Unsupported {
            return None;
        }
        if self.uclamp_max_support == UclampSupport::Unknown {
            if !uclamp_version_ok(ver) || !node_exists {
                self.uclamp_max_support = UclampSupport::Unsupported;
                return None;
            }
        }
        let v = pct_string(pct);
        Some(write_to("/dev/cpuctl/top-app/cpu.uclamp.max", v.as_str()))
    }

    /// The read-back of the uclamp.max write decides support for good.
    pub fn uclamp_max_verified(&mut self, applied: bool)
        ensures
            final(self).uclamp_max_support == if applied {
                UclampSupport::Available
            } else {
                UclampSupport::Unsupported
            },
            final(self).applied_kind == old(self).applied_kind,
            final(self).snapshot == old(self).snapshot,
            final(self).boost_uclamp_prev == old(self).boost_uclamp_prev,
    {
        self.uclamp_max_support = if applied {
            UclampSupport::Available
        } else {
            UclampSupport::Unsupported
        };
    }

    /// The boost override of top-app uclamp.max: active, it is written to
    /// `100.00` every round (after probing support once and remembering the
    /// value found the first time, `current`); inactive, the remembered
    /// value is written back while boost is applied (and forgotten either
    /// way).
    pub fn set_boost_uclamp_override(
        &mut self,
        active: bool,
        ver: Option<(u32, u32, u32)>,
        node_exists: bool,
        current: Option<&str>,
    ) -> (r: Option<NodeWrite>)
        ensures
            final(self).applied_kind == old(self).applied_kind,
            final(self).snapshot == old(self).snapshot,
            active && (old(self).uclamp_max_support == UclampSupport::Unsupported || (old(self).uclamp_max_support
                == UclampSupport::Unknown && !(uclamp_version_ok_spec(ver) && node_exists))) ==> r is None
                && final(self).boost_uclamp_prev == old(self).boost_uclamp_prev,
            active && (old(self).uclamp_max_support == UclampSupport::Available || (old(self).uclamp_max_support
                == UclampSupport::Unknown && uclamp_version_ok_spec(ver) && node_exists)) ==> (r matches Some(w)
                && w.path@ == uclamp_max_path() && w.value@ == "100.00"@),
            active && (old(self).uclamp_max_support == UclampSupport::Available || (old(self).uclamp_max_support
                == UclampSupport::Unknown && uclamp_version_ok_spec(ver) && node_exists)) ==> final(self).uclamp_max_support
                == UclampSupport::Available && opt_view(final(self).boost_uclamp_prev) == match opt_view(
                old(self).boost_uclamp_prev,
            ) {
                Some(p) => Some(p),
                None => match ostr(current) {
                    Some(c) => Some(crate::text::trim(c)),
                    None => None,
                },
            },
            !active ==> final(self).boost_uclamp_prev is None && final(self).uclamp_max_support == old(
                self,
            ).uclamp_max_support && match opt_view(old(self).boost_uclamp_prev) {
                Some(p) => if old(self).applied_kind == LayoutKind::Boost && p.len() > 0 {
                    r matches Some(w) && w.path@ == uclamp_max_path() && w.value@ == p
                } else {
                    r is None
                },
                None => r is None,
            },
    {
        if active {
            if self.uclamp_max_support == UclampSupport::Unsupported {
                return None;
            }
            if self.uclamp_max_support == UclampSupport::Unknown {
                if !uclamp_version_ok(ver) || !node_exists {
                    self.uclamp_max_support = UclampSupport::Unsupported;
                    return None;
                }
                self.uclamp_max_support = UclampSupport::Available;
            }
            if self.boost_uclamp_prev.is_none() {
                self.boost_uclamp_prev = match current {
                    Some(c) => Some(crate::text::trim_str(c)),
                    None => None,
                };
            }
            Some(write_to("/dev/cpuctl/top-app/cpu.uclamp.max", "100.00"))
        } else {
            match self.boost_uclamp_prev.take() {
                Some(prev) => {
                    if self.applied_kind == LayoutKind::Boost && str_to_chars(prev.as_str()).len() > 0 {
                        Some(write_to("/dev/cpuctl/top-app/cpu.uclamp.max", prev.as_str()))
                    } else {
                        None
                    }
                },
                None => None,
            }
        }
    }

    /// Releases the layout: the snapshot is written back (and dropped), then
    /// the uclamp values; nothing stays applied. The background uclamp.max
    /// reset and the threads are the caller's.
    pub fn release(&mut self) -> (r: Vec<NodeWrite>)
        ensures
            final(self).applied_kind == LayoutKind::Unapplied,
            final(self).snapshot is None,
            final(self).last_fg_pid == 0,
            !final(self).last_boost,
            final(self).lab_static_mode == old(self).lab_static_mode,
            old(self).snapshot is None ==> writes_view(r@) == old(self).restore_uclamp_writes_spec(),
            old(self).snapshot matches Some(s) ==> writes_view(r@) == pairs_view(s@) + old(
                self,
            ).restore_uclamp_writes_spec(),
    {
        let mut out: Vec<NodeWrite> = Vec::new();
        match self.snapshot.take() {
            Some(snap) => {
                out = write_cpuset_paths_items(&snap);
            },
            None => {},
        }
        let ghost w0 = writes_view(out@);
        let u = self.restore_uclamp_writes();
        append_writes(&mut out, &u);
        proof {
            if old(self).snapshot is None {
                assert(w0 =~= Seq::<(Seq<char>, Seq<char>)>::empty());
                assert(writes_view(out@) =~= writes_view(u@));
            }
        }
        self.applied_kind = LayoutKind::Unapplied;
        self.last_fg_pid = 0;
        self.last_boost = false;
        out
    }

    /// The uclamp restore as plain pairs (see `restore_uclamp_writes`).
    pub open spec fn restore_uclamp_writes_spec(&self) -> Seq<(Seq<char>, Seq<char>)> {
        (match opt_view(self.uclamp_snapshot) {
            Some(v) => if v.len() > 0 {
                seq![(uclamp_min_path(), v)]
            } else {
                Seq::empty()
            },
            None => Seq::empty(),
        }) + (match opt_view(self.uclamp_max_snapshot) {
            Some(v) => if v.len() > 0 {
                seq![(uclamp_max_path(), v)]
            } else {
                Seq::empty()
            },
            None => Seq::empty(),
        })
    }

    /// A lab grouping for another mode first releases what is held (the
    /// caller releases when this says so) and starts a fresh snapshot.
    pub fn lab_begin(&mut self, mode: &str) -> (release_first: bool)
        ensures
            release_first == !(opt_view(old(self).lab_static_mode) == Some(mode@)),
            release_first ==> opt_view(final(self).lab_static_mode) == Some(mode@)
                && final(self).lab_group_snapshot@.len() == 0,
            !release_first ==> final(self).lab_group_snapshot == old(self).lab_group_snapshot
                && final(self).lab_static_mode == old(self).lab_static_mode,
            final(self).applied_kind == old(self).applied_kind,
            final(self).snapshot == old(self).snapshot,
    {
        let same = match &self.lab_static_mode {
            Some(m) => str_eq(m.as_str(), mode),
            None => false,
        };
        if same {
            return false;
        }
        self.lab_group_snapshot = Vec::new();
        self.lab_static_mode = Some(chars_to_string(str_to_chars(mode)));
        true
    }

    /// Ends the lab grouping: the groups get their original cpus back.
    pub fn lab_static_deactivate(&mut self) -> (r: Vec<NodeWrite>)
        ensures
            final(self).lab_static_mode is None,
            old(self).lab_static_mode is None ==> r@.len() == 0 && final(self).lab_group_snapshot
                == old(self).lab_group_snapshot,
            old(self).lab_static_mode is Some ==> writes_view(r@) == pairs_view(old(self).lab_group_snapshot@).map_values(
                |p: (Seq<char>, Seq<char>)| (cpuset_cpus_path(p.0), p.1),
            ) && final(self).lab_group_snapshot@.len() == 0,
            final(self).applied_kind == old(self).applied_kind,
            final(self).snapshot == old(self).snapshot,
    {
        if self.lab_static_mode.take().is_none() {
            return Vec::new();
        }
        let mut items: Vec<(String, String)> = Vec::new();
        std::mem::swap(&mut items, &mut self.lab_group_snapshot);
        write_cpuset_cpus_items(&items)
    }
}

pub open spec fn groups_view(g: Vec<&'static str>) -> Seq<Seq<char>> {
    g@.map_values(|s: &str| s@)
}

/// The group assignments of a lab grouping, in the order they are written:
/// contingency puts top-app and foreground on every core and the background
/// groups on the first two little cores; babel puts top-app and foreground
/// on the big and prime cores, system-background on the big cores and
/// background and restricted on the little cores; other modes assign none.
pub fn lab_assignments(mode: &str, r: &CoreGroupRanges, root_cpus: Option<&str>) -> (out: Vec<(Vec<&'static str>, String)>)
    requires
        r.little.end >= 1,
        r.little.start < usize::MAX,
        r.big.end >= 1,
    ensures
        mode@ == "contingency"@ ==> out@.len() == 2 && groups_view(out@[0].0) == seq!["top-app"@, "foreground"@]
            && out@[0].1@ == match nonblank_spec(ostr(root_cpus)) {
            Some(v) => v,
            None => range_text(
                0,
                (if r.prime.end > r.big.end {
                    r.prime.end
                } else {
                    r.big.end
                } - 1) as nat,
            ),
        } && groups_view(out@[1].0) == seq!["background"@, "system-background"@, "restricted"@]
            && out@[1].1@ == range_text(r.little.start as nat, (r.little.start + 1) as nat),
        mode@ == "babel"@ ==> out@.len() == 3 && groups_view(out@[0].0) == seq!["top-app"@, "foreground"@]
            && out@[0].1@ == (if r.prime.start < r.prime.end {
            range_text(r.big.start as nat, (r.prime.end - 1) as nat)
        } else {
            range_text(r.big.start as nat, (r.big.end - 1) as nat)
        }) && groups_view(out@[1].0) == seq!["system-background"@] && out@[1].1@ == range_text(
            r.big.start as nat,
            (r.big.end - 1) as nat,
        ) && groups_view(out@[2].0) == seq!["background"@, "restricted"@] && out@[2].1@ == range_text(
            r.little.start as nat,
            (r.little.end - 1) as nat,
        ),
        mode@ != "contingency"@ && mode@ != "babel"@ ==> out@.len() == 0,
{
    let mut out: Vec<(Vec<&'static str>, String)> = Vec::new();
    proof {
        reveal_strlit("contingency");
        reveal_strlit("babel");
        assert("contingency"@.len() != "babel"@.len());
    }
    if str_eq(mode, "contingency") {
        let bg = little_pair_list(r);
        let all = all_cores_list(root_cpus, r);
        let g1 = vec!["top-app", "foreground"];
        let g2 = vec!["background", "system-background", "restricted"];
        proof {
            assert(groups_view(g1) =~= seq!["top-app"@, "foreground"@]);
            assert(groups_view(g2) =~= seq!["background"@, "system-background"@, "restricted"@]);
        }
        out.push((g1, all));
        out.push((g2, bg));
    } else if str_eq(mode, "babel") {
        let bg = little_list(r);
        let fg = big_plus_prime_list(r);
        let sys = big_list(r);
        let g1 = vec!["top-app", "foreground"];
        let g2 = vec!["system-background"];
        let g3 = vec!["background", "restricted"];
        proof {
            assert(groups_view(g1) =~= seq!["top-app"@, "foreground"@]);
            assert(groups_view(g2) =~= seq!["system-background"@]);
            assert(groups_view(g3) =~= seq!["background"@, "restricted"@]);
        }
        out.push((g1, fg));
        out.push((g2, sys));
        out.push((g3, bg));
    }
    out
}


// ---------------------------------------------------------------------------
// [placement]
// ---------------------------------------------------------------------------

/// Threads pinned to one core at most.
pub const MAX_PINS_PER_CORE: u32 = 3;

/// How many threads are pinned to each core.
pub struct PinCounts {
    pub counts: Vec<u32>,
}

/// The pin count of a core (0 for a core never counted).
pub open spec fn pins_of(counts: Seq<u32>, core: int) -> u32 {
    if 0 <= core < counts.len() {
        counts[core]
    } else {
        0
    }
}

/// A pinned thread is not moved again before this many ms since its last
/// move.
pub const REPIN_DEBOUNCE_MS: u64 = 8000;

/// A thread moved off a core may not go back to it for this many ms.
pub const RETURN_COOLDOWN_MS: u64 = 16000;

/// A tracked thread not seen for this many ms is given back.
pub const THREAD_STALE_MS: u64 = 30000;

/// A foreground thread of another application than the current foreground
/// one (the previous foreground app): released at once.
pub fn thread_departed(is_fg: bool, pid: i32, fg_pid: i32) -> (r: bool)
    ensures
        r == (is_fg && pid != fg_pid),
{
    is_fg && pid != fg_pid
}

/// A foreground thread of the current foreground app that is no longer
/// among its tasks (`seen`): released.
pub fn thread_gone(is_fg: bool, pid: i32, fg_pid: i32, seen: bool) -> (r: bool)
    ensures
        r == (is_fg && pid == fg_pid && !seen),
{
    is_fg && pid == fg_pid && !seen
}

/// A tracked thread last seen more than `THREAD_STALE_MS` ago: released.
pub fn thread_stale(now_ms: u64, last_seen_ms: u64) -> (r: bool)
    ensures
        r == (now_ms >= last_seen_ms && now_ms - last_seen_ms > THREAD_STALE_MS),
{
    now_ms >= last_seen_ms && now_ms - last_seen_ms > THREAD_STALE_MS
}

/// Whether moving a thread to `core` would send it back to the core it left
/// (`left`, at `left_at_ms`) within `RETURN_COOLDOWN_MS`.
pub fn return_banned(left: i16, core: usize, now_ms: u64, left_at_ms: u64) -> (r: bool)
    ensures
        r == (left >= 0 && left as int == core as int && !(now_ms >= left_at_ms && now_ms - left_at_ms
            >= RETURN_COOLDOWN_MS)),
{
    left >= 0 && left as usize == core && !(now_ms >= left_at_ms && now_ms - left_at_ms >= RETURN_COOLDOWN_MS)
}

/// What one thread of the foreground app gets in a placement round.
#[derive(PartialEq, Eq, Structural, Clone, Copy)]
pub enum FgThreadAction {
    /// A key thread: its mask widened to the performance cores (only without
    /// a top-app group to do it).
    BindGroup,
    /// A regular thread without a valid home core: pinned to a new one.
    Pin,
    /// A regular thread on its home core, last moved long enough ago: moved
    /// when its home core is overloaded (the load comparison decides).
    Relieve,
    /// Foreground pinning is off: the thread's pin is undone.
    Unpin,
    /// Foreground pinning is off: the thread's group mask is restored.
    RestoreMask,
    /// Nothing to do.
    Keep,
}

/// The placement step of a foreground thread: with foreground pinning on, a
/// key thread is bound to the performance cores once (when no top-app group
/// does it), a regular thread is pinned when its home is not valid and may
/// be relieved once `REPIN_DEBOUNCE_MS` passed since its last move; with
/// pinning off, a pinned thread is unpinned and a bound one restored.
pub fn fg_thread_action(
    pin_fg: bool,
    is_key: bool,
    group_bound: bool,
    top_app_present: bool,
    home: i16,
    home_valid: bool,
    now_ms: u64,
    last_move_ms: u64,
) -> (r: FgThreadAction)
    ensures
        r == if pin_fg {
            if is_key {
                if !group_bound && !top_app_present {
                    FgThreadAction::BindGroup
                } else {
                    FgThreadAction::Keep
                }
            } else if !home_valid {
                FgThreadAction::Pin
            } else if now_ms >= last_move_ms && now_ms - last_move_ms >= REPIN_DEBOUNCE_MS {
                FgThreadAction::Relieve
            } else {
                FgThreadAction::Keep
            }
        } else if home >= 0 {
            FgThreadAction::Unpin
        } else if group_bound {
            FgThreadAction::RestoreMask
        } else {
            FgThreadAction::Keep
        },
{
    if pin_fg {
        if is_key {
            if !group_bound && !top_app_present {
                FgThreadAction::BindGroup
            } else {
                FgThreadAction::Keep
            }
        } else if !home_valid {
            FgThreadAction::Pin
        } else if now_ms >= last_move_ms && now_ms - last_move_ms >= REPIN_DEBOUNCE_MS {
            FgThreadAction::Relieve
        } else {
            FgThreadAction::Keep
        }
    } else if home >= 0 {
        FgThreadAction::Unpin
    } else if group_bound {
        FgThreadAction::RestoreMask
    } else {
        FgThreadAction::Keep
    }
}

/// A pin count after `delta` pins were added to it (a removal stops at 0).
pub open spec fn pins_after(count: int, delta: int) -> int {
    if count + delta >= 0 {
        count + delta
    } else {
        0
    }
}

impl PinCounts {
    pub fn new() -> (r: PinCounts)
        ensures
            r.counts@.len() == 0,
    {
        PinCounts { counts: Vec::new() }
    }

    pub fn pinned_of(&self, core: usize) -> (r: u32)
        ensures
            r == pins_of(self.counts@, core as int),
    {
        if core < self.counts.len() {
            self.counts[core]
        } else {
            0
        }
    }

    /// Adds `delta` pins to `core` (the table grows as needed; a removal
    /// never goes below 0).
    pub fn add_pinned(&mut self, core: usize, delta: i32)
        requires
            core < usize::MAX,
            delta >= 0 ==> pins_of(old(self).counts@, core as int) + delta <= u32::MAX,
        ensures
            pins_of(final(self).counts@, core as int) == pins_after(
                pins_of(old(self).counts@, core as int) as int,
                delta as int,
            ),
            forall|c: int| c != core ==> pins_of(final(self).counts@, c) == pins_of(old(self).counts@, c),
    {
        while self.counts.len() <= core
            invariant
                core < usize::MAX,
                forall|c: int| pins_of(self.counts@, c) == pins_of(old(self).counts@, c),
            decreases core + 1 - self.counts.len(),
        {
            self.counts.push(0);
        }
        let cur = self.counts[core];
        let next = if delta >= 0 {
            cur + delta as u32
        } else {
            let d: u32 = if delta == i32::MIN {
                0x8000_0000u32
            } else {
                (-delta) as u32
            };
            if cur >= d {
                cur - d
            } else {
                0
            }
        };
        self.counts.set(core, next);
    }
}

/// Unpinning what was just pinned to a core gives that core back the count
/// it had: `add_pinned(core, d)` then `add_pinned(core, -d)` is no change.
pub proof fn law_unpin_restores(count: u32, d: i32)
    requires
        d >= 0,
        count + d <= u32::MAX,
    ensures
        pins_after(pins_after(count as int, d as int), -(d as int)) == count,
{
}

/// The candidate cores of a regular thread: the main pool while one of its
/// cores has no pin; otherwise the main pool and the unpinned cores of the
/// overflow pool.
pub open spec fn pref_pool_spec(main: Seq<usize>, overflow: Seq<usize>, counts: Seq<u32>) -> Seq<usize> {
    if exists|k: int| 0 <= k < main.len() && pins_of(counts, main[k] as int) == 0 {
        main
    } else {
        main + overflow.filter(|c: usize| pins_of(counts, c as int) == 0)
    }
}

pub fn pref_pool(main: &Vec<usize>, overflow: &Vec<usize>, pins: &PinCounts) -> (r: Vec<usize>)
    ensures
        r@ == pref_pool_spec(main@, overflow@, pins.counts@),
{
    let mut i: usize = 0;
    while i < main.len()
        invariant
            i <= main.len(),
            forall|k: int| 0 <= k < i ==> pins_of(pins.counts@, main@[k] as int) != 0,
        decreases main.len() - i,
    {
        if pins.pinned_of(main[i]) == 0 {
            let mut out: Vec<usize> = Vec::new();
            let mut j: usize = 0;
            while j < main.len()
                invariant
                    j <= main.len(),
                    out@ == main@.take(j as int),
                decreases main.len() - j,
            {
                out.push(main[j]);
                proof {
                    assert(main@.take(j + 1) =~= main@.take(j as int).push(main@[j as int]));
                }
                j += 1;
            }
            proof {
                assert(main@.take(main.len() as int) =~= main@);
            }
            return out;
        }
        i += 1;
    }
    let mut out: Vec<usize> = Vec::new();
    let mut j: usize = 0;
    while j < main.len()
        invariant
            j <= main.len(),
            out@ == main@.take(j as int),
        decreases main.len() - j,
    {
        out.push(main[j]);
        proof {
            assert(main@.take(j + 1) =~= main@.take(j as int).push(main@[j as int]));
        }
        j += 1;
    }
    proof {
        assert(main@.take(main.len() as int) =~= main@);
        reveal(Seq::filter);
        assert(overflow@.take(0).filter(|c: usize| pins_of(pins.counts@, c as int) == 0) =~= Seq::<usize>::empty());
    }
    let ghost f = |c: usize| pins_of(pins.counts@, c as int) == 0;
    let mut k: usize = 0;
    while k < overflow.len()
        invariant
            k <= overflow.len(),
            out@ == main@ + overflow@.take(k as int).filter(f),
            f == (|c: usize| pins_of(pins.counts@, c as int) == 0),
        decreases overflow.len() - k,
    {
        proof {
            reveal(Seq::filter);
            assert(overflow@.take(k + 1).drop_last() =~= overflow@.take(k as int));
            assert(overflow@.take(k + 1).last() == overflow@[k as int]);
        }
        if pins.pinned_of(overflow[k]) == 0 {
            out.push(overflow[k]);
            proof {
                assert(out@ =~= main@ + overflow@.take(k + 1).filter(f));
            }
        } else {
            proof {
                assert(out@ =~= main@ + overflow@.take(k + 1).filter(f));
            }
        }
        k += 1;
    }
    proof {
        assert(overflow@.take(overflow.len() as int) =~= overflow@);
    }
    out
}

/// A chosen core is used only while it holds fewer than three pins.
pub fn pin_cap_ok(pins: &PinCounts, core: usize) -> (r: bool)
    ensures
        r == (pins_of(pins.counts@, core as int) < MAX_PINS_PER_CORE),
{
    pins.pinned_of(core) < MAX_PINS_PER_CORE
}

/// A thread's home core is still a valid place: a core number below
/// `max_cpu`, online, and in the performance pool.
pub fn home_core_valid(home: i16, max_cpu: usize, online: &Vec<bool>, pool: &Vec<usize>) -> (r: bool)
    ensures
        r == (home >= 0 && (home as int) < max_cpu && (home as int) < online@.len() && online@[home as int]
            && pool@.contains(home as usize)),
{
    if home < 0 {
        return false;
    }
    let h = home as usize;
    if h >= max_cpu || h >= online.len() || !online[h] {
        return false;
    }
    let mut i: usize = 0;
    while i < pool.len()
        invariant
            i <= pool.len(),
            home >= 0,
            h as int == home as int,
            h == home as usize,
            h < max_cpu,
            h < online@.len(),
            online@[h as int],
            forall|k: int| 0 <= k < i ==> pool@[k] != h,
        decreases pool.len() - i,
    {
        if pool[i] == h {
            proof {
                assert(pool@[i as int] == h);
                assert(pool@.contains(h));
                assert(h == home as usize);
            }
            return true;
        }
        i += 1;
    }
    proof {
        assert(!pool@.contains(h));
    }
    false
}

} // verus!
