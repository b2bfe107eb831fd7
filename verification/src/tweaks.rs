//! One-time system tweaks (cpuidle governor, block queues, input boost,
//! kernel scheduler parameters) and the snapshot that undoes them.
use vstd::prelude::*;
use crate::affinity::{has_group, pairs_view};
use crate::config::IOSettings;
use crate::core_ctl::ostr;
use crate::sysfs::{writes_view, NodeWrite};
use crate::text::{
    chars_to_string, find_char, push_all, str_eq, str_to_chars, sub_chars, trim, trim_chars,
    first_index,
};

verus! {

/// The value a node is snapshotted with: the trimmed reading, or, for a
/// selector such as `none [mq-deadline] kyber`, the trimmed entry between
/// the first `[` and the first `]` after it.
pub open spec fn snapshot_value_spec(raw: Seq<char>) -> Seq<char> {
    let t = trim(raw);
    match (first_index(t, '['), first_index(t, ']')) {
        (Some(a), Some(b)) => if b > a {
            trim(t.subrange(a + 1, b))
        } else {
            t
        },
        _ => t,
    }
}

pub fn snapshot_value(raw: &str) -> (r: String)
    ensures
        r@ == snapshot_value_spec(raw@),
{
    let t = trim_chars(str_to_chars(raw).as_slice());
    match (find_char(t.as_slice(), '['), find_char(t.as_slice(), ']')) {
        (Some(a), Some(b)) => {
            if b > a {
                let inner = sub_chars(t.as_slice(), a + 1, b);
                chars_to_string(trim_chars(inner.as_slice()))
            } else {
                chars_to_string(t)
            }
        },
        _ => chars_to_string(t),
    }
}

/// The original value of every node a tweak wrote, first reading kept.
pub struct TweakSnapshot {
    pub entries: Vec<(String, String)>,
}

/// The snapshot after recording `path` as read (`None`: unreadable, not
/// recorded): a path already recorded keeps its first value.
pub open spec fn record_spec(
    entries: Seq<(Seq<char>, Seq<char>)>,
    path: Seq<char>,
    read: Option<Seq<char>>,
) -> Seq<(Seq<char>, Seq<char>)> {
    match read {
        None => entries,
        Some(raw) => if has_group(entries, path) {
            entries
        } else {
            entries.push((path, snapshot_value_spec(raw)))
        },
    }
}

impl TweakSnapshot {
    pub fn new() -> (r: TweakSnapshot)
        ensures
            r.entries@.len() == 0,
    {
        TweakSnapshot { entries: Vec::new() }
    }

    /// Records a node before it is written.
    pub fn record(&mut self, path: &str, read: Option<&str>)
        ensures
            pairs_view(final(self).entries@) == record_spec(pairs_view(old(self).entries@), path@, ostr(read)),
    {
        let raw = match read {
            Some(r) => r,
            None => return,
        };
        let mut i: usize = 0;
        while i < self.entries.len()
            invariant
                i <= self.entries.len(),
                forall|k: int| 0 <= k < i ==> #[trigger] pairs_view(self.entries@)[k].0 != path@,
            decreases self.entries.len() - i,
        {
            if str_eq(self.entries[i].0.as_str(), path) {
                proof {
                    assert(pairs_view(self.entries@)[i as int].0 == path@);
                }
                return;
            }
            i += 1;
        }
        let v = snapshot_value(raw);
        let ghost before = self.entries@;
        self.entries.push((chars_to_string(str_to_chars(path)), v));
        proof {
            assert(pairs_view(self.entries@) =~= pairs_view(before).push((path@, snapshot_value_spec(raw@))));
        }
    }

    /// Undoing the tweaks: every recorded node gets its value back, and the
    /// snapshot is emptied.
    pub fn restore_all(&mut self) -> (r: Vec<NodeWrite>)
        ensures
            writes_view(r@) == pairs_view(old(self).entries@),
            final(self).entries@.len() == 0,
    {
        let mut e: Vec<(String, String)> = Vec::new();
        std::mem::swap(&mut e, &mut self.entries);
        crate::affinity::write_cpuset_paths_items(&e)
    }
}

/// The kernel scheduler parameters a configuration may set.
pub open spec fn sched_allowed_params() -> Seq<Seq<char>> {
    seq![
        "sched_migration_cost_ns"@,
        "sched_nr_migrate"@,
        "sched_latency_ns"@,
        "sched_min_granularity_ns"@,
        "sched_wakeup_granularity_ns"@,
        "sched_energy_aware"@,
        "sched_schedstats"@,
    ]
}

/// Whether a configured parameter is written: its key must be allowed
/// (others are rejected) and its value not blank (skipped).
pub open spec fn sched_param_ok(key: Seq<char>, value: Seq<char>) -> bool {
    sched_allowed_params().contains(key) && trim(value).len() > 0
}

/// The write of one scheduler parameter: `/proc/sys/kernel/{key}`.
pub fn sched_param_write(key: &str, value: &str) -> (r: Option<NodeWrite>)
    ensures
        match r {
            Some(w) => sched_param_ok(key@, value@) && w.path@ == "/proc/sys/kernel/"@ + key@
                && w.value@ == value@,
            None => !sched_param_ok(key@, value@),
        },
{
    let allowed: Vec<&str> = vec![
        "sched_migration_cost_ns",
        "sched_nr_migrate",
        "sched_latency_ns",
        "sched_min_granularity_ns",
        "sched_wakeup_granularity_ns",
        "sched_energy_aware",
        "sched_schedstats",
    ];
    proof {
        assert(allowed@.map_values(|s: &str| s@) =~= sched_allowed_params());
    }
    let mut found = false;
    let mut i: usize = 0;
    while i < allowed.len()
        invariant
            i <= allowed.len(),
            allowed@.len() == 7,
            allowed@.map_values(|s: &str| s@) == sched_allowed_params(),
            found == exists|k: int| 0 <= k < i && sched_allowed_params()[k] == key@,
        decreases allowed.len() - i,
    {
        proof {
            assert(allowed@.map_values(|s: &str| s@)[i as int] == allowed@[i as int]@);
        }
        if str_eq(allowed[i], key) {
            found = true;
        }
        i += 1;
    }
    proof {
        if sched_allowed_params().contains(key@) {
            let k = choose|k: int| 0 <= k < 7 && sched_allowed_params()[k] == key@;
            assert(exists|k: int| 0 <= k < 7 && sched_allowed_params()[k] == key@);
        }
    }
    if !found {
        return None;
    }
    if trim_chars(str_to_chars(value).as_slice()).len() == 0 {
        return None;
    }
    let mut p = str_to_chars("/proc/sys/kernel/");
    push_all(&mut p, str_to_chars(key).as_slice());
    Some(NodeWrite { path: chars_to_string(p), value: chars_to_string(str_to_chars(value)) })
}

/// The cpuidle governor write: only when the switch is on, a governor is
/// configured and the node exists.
pub fn cpu_idle_write(enabled: bool, governor: &str, node_exists: bool) -> (r: Option<NodeWrite>)
    ensures
        match r {
            Some(w) => enabled && governor@.len() > 0 && node_exists && w.path@
                == "/sys/devices/system/cpu/cpuidle/current_governor"@ && w.value@ == governor@,
            None => !(enabled && governor@.len() > 0 && node_exists),
        },
{
    let g = str_to_chars(governor);
    if enabled && g.len() > 0 && node_exists {
        Some(NodeWrite {
            path: chars_to_string(str_to_chars("/sys/devices/system/cpu/cpuidle/current_governor")),
            value: chars_to_string(g),
        })
    } else {
        None
    }
}

/// The writes of one block queue: scheduler, read_ahead_kb, nomerges and
/// iostats, in this order, each only when set.
pub open spec fn queue_writes_spec(queue: Seq<char>, io: (Seq<char>, Seq<char>, Seq<char>, Seq<char>)) -> Seq<(Seq<char>, Seq<char>)> {
    let one = |name: Seq<char>, v: Seq<char>| if v.len() > 0 {
        seq![(queue + seq!['/'] + name, v)]
    } else {
        Seq::<(Seq<char>, Seq<char>)>::empty()
    };
    one("scheduler"@, io.0) + one("read_ahead_kb"@, io.1) + one("nomerges"@, io.2) + one("iostats"@, io.3)
}

pub open spec fn io_view(io: IOSettings) -> (Seq<char>, Seq<char>, Seq<char>, Seq<char>) {
    (io.scheduler@, io.read_ahead_kb@, io.nomerges@, io.iostats@)
}

fn push_queue_item(out: &mut Vec<NodeWrite>, queue: &str, name: &str, v: &str)
    ensures
        writes_view(final(out)@) == writes_view(old(out)@) + if v@.len() > 0 {
            seq![(queue@ + seq!['/'] + name@, v@)]
        } else {
            Seq::<(Seq<char>, Seq<char>)>::empty()
        },
{
    let vc = str_to_chars(v);
    let ghost before = out@;
    if vc.len() > 0 {
        let mut p = str_to_chars(queue);
        p.push('/');
        push_all(&mut p, str_to_chars(name).as_slice());
        assert(p@ =~= queue@ + seq!['/'] + name@);
        out.push(NodeWrite { path: chars_to_string(p), value: chars_to_string(vc) });
        proof {
            assert(writes_view(out@) =~= writes_view(before) + seq![(queue@ + seq!['/'] + name@, v@)]);
        }
    } else {
        proof {
            assert(writes_view(out@) =~= writes_view(before) + Seq::<(Seq<char>, Seq<char>)>::empty());
        }
    }
}

/// The block-queue writes for the `queue` directory of a device.
pub fn queue_writes(queue: &str, io: &IOSettings) -> (r: Vec<NodeWrite>)
    ensures
        writes_view(r@) == queue_writes_spec(queue@, io_view(*io)),
{
    let mut out: Vec<NodeWrite> = Vec::new();
    push_queue_item(&mut out, queue, "scheduler", io.scheduler.as_str());
    push_queue_item(&mut out, queue, "read_ahead_kb", io.read_ahead_kb.as_str());
    push_queue_item(&mut out, queue, "nomerges", io.nomerges.as_str());
    push_queue_item(&mut out, queue, "iostats", io.iostats.as_str());
    proof {
        assert(writes_view(out@) =~= queue_writes_spec(queue@, io_view(*io)));
    }
    out
}

/// The vendor input-boost switches turned off.
pub open spec fn touch_boost_nodes() -> Seq<Seq<char>> {
    seq![
        "/sys/module/cpu_boost/parameters/input_boost_enabled"@,
        "/sys/module/cpu_boost/parameters/sched_boost_on_input"@,
        "/sys/module/cpu_boost/parameters/input_boost_ms"@,
        "/sys/module/cpu_boost/parameters/boost_ms"@,
    ]
}

/// `0` to every input-boost switch.
pub fn touch_boost_disable_writes() -> (r: Vec<NodeWrite>)
    ensures
        writes_view(r@) == touch_boost_nodes().map_values(|p: Seq<char>| (p, "0"@)),
{
    let nodes: Vec<&str> = vec![
        "/sys/module/cpu_boost/parameters/input_boost_enabled",
        "/sys/module/cpu_boost/parameters/sched_boost_on_input",
        "/sys/module/cpu_boost/parameters/input_boost_ms",
        "/sys/module/cpu_boost/parameters/boost_ms",
    ];
    let mut out: Vec<NodeWrite> = Vec::new();
    let mut i: usize = 0;
    while i < nodes.len()
        invariant
            i <= nodes.len(),
            nodes@.len() == 4,
            nodes@.map_values(|s: &str| s@) == touch_boost_nodes(),
            writes_view(out@) == touch_boost_nodes().take(i as int).map_values(|p: Seq<char>| (p, "0"@)),
        decreases nodes.len() - i,
    {
        let ghost before = out@;
        out.push(NodeWrite {
            path: chars_to_string(str_to_chars(nodes[i])),
            value: chars_to_string(str_to_chars("0")),
        });
        proof {
            assert(nodes@.map_values(|s: &str| s@)[i as int] == nodes@[i as int]@);
            assert(writes_view(out@) =~= writes_view(before).push((nodes@[i as int]@, "0"@)));
            assert(touch_boost_nodes().take(i + 1).map_values(|p: Seq<char>| (p, "0"@))
                =~= touch_boost_nodes().take(i as int).map_values(|p: Seq<char>| (p, "0"@)).push(
                (touch_boost_nodes()[i as int], "0"@),
            ));
        }
        i += 1;
    }
    proof {
        assert(touch_boost_nodes().take(4) =~= touch_boost_nodes());
    }
    out
}

/// Recording a node twice never replaces its first value, so a restore
/// always writes back what the node held before the first tweak.
pub proof fn law_first_snapshot_wins(
    entries: Seq<(Seq<char>, Seq<char>)>,
    path: Seq<char>,
    read: Option<Seq<char>>,
    k: int,
)
    requires
        0 <= k < entries.len(),
    ensures
        record_spec(entries, path, read)[k] == entries[k],
{
}

} // verus!
