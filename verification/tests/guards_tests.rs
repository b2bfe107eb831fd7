use chiri::down::{down_from_text, is_down, on_change, on_startup, DownFlag};
use chiri::fast::{lock_max_first, lock_min_after, lock_writes, policy_hw_max, read_u32_value, FastLock};
use chiri::governor::GovernorGuard;
use chiri::gpu::{is_gpu_devfreq_name, probe_range, read_freq_range, GpuGuard, GpuNode};
use chiri::sysfs::{policy_node, NodeWrite};

fn pairs(ws: &[NodeWrite]) -> Vec<(String, String)> {
    ws.iter().map(|w| (w.path.clone(), w.value.clone())).collect()
}

fn p(a: &str, b: &str) -> (String, String) {
    (a.to_string(), b.to_string())
}

#[test]
fn down_file_asks_for_the_stop() {
    assert!(down_from_text(Some("# comment\n\n  'DOWN'  \n")));
    assert!(down_from_text(Some("\"\"down\"\"")));
    assert!(!down_from_text(Some("# down\nnormal\ndown")));
    assert!(!down_from_text(Some("# only comments\n")));
    assert!(!down_from_text(None));
}

#[test]
fn down_flag_follows_the_file() {
    let mut f = DownFlag::new();
    assert!(!is_down(&f));
    assert!(on_startup(&mut f, Some("down")));
    assert!(is_down(&f));
    assert!(!on_change(&mut f, Some("down\n")));
    assert!(on_change(&mut f, None));
    assert!(!is_down(&f));
}

#[test]
fn policy_paths() {
    assert_eq!(policy_node(7, "scaling_governor"), "/sys/devices/system/cpu/cpufreq/policy7/scaling_governor");
    assert_eq!(policy_node(-1, "x"), "/sys/devices/system/cpu/cpufreq/policy-1/x");
}

#[test]
fn governor_release_restores_what_activation_found() {
    let mut g = GovernorGuard::new();
    assert!(!g.is_active());
    let readings = vec![
        (0, Some("schedutil\n".to_string())),
        (3, None),
        (4, Some("  \n".to_string())),
        (7, Some("walt".to_string())),
    ];
    let plan = g.activation_plan(&readings);
    assert_eq!(plan.len(), 2);
    assert_eq!(plan[0].original, "schedutil");
    assert_eq!(plan[1].path, "/sys/devices/system/cpu/cpufreq/policy7/scaling_governor");
    assert_eq!(plan[0].value, "performance");
    assert_eq!(plan[1].value, "performance");
    g.commit_activation(plan, &vec![true, true]);
    assert!(g.is_active());
    assert!(g.activation_plan(&readings).is_empty());
    let w = g.release();
    assert_eq!(
        pairs(&w),
        vec![
            p("/sys/devices/system/cpu/cpufreq/policy0/scaling_governor", "schedutil"),
            p("/sys/devices/system/cpu/cpufreq/policy7/scaling_governor", "walt"),
        ]
    );
    assert!(!g.is_active());
    assert!(g.release().is_empty());
}

#[test]
fn governor_stays_idle_when_no_switch_succeeds() {
    let mut g = GovernorGuard::new();
    let plan = g.activation_plan(&vec![(0, Some("schedutil".to_string()))]);
    g.commit_activation(plan, &vec![false]);
    assert!(!g.is_active());
    assert!(g.release().is_empty());
}

#[test]
fn governor_residue_only_for_performance() {
    let readings = vec![
        (0, Some("performance\n".to_string())),
        (4, Some("schedutil".to_string())),
        (7, None),
    ];
    assert_eq!(GovernorGuard::report_residue(&readings), vec![0]);
    assert_eq!(
        pairs(&GovernorGuard::cleanup_residue(&readings)),
        vec![p("/sys/devices/system/cpu/cpufreq/policy0/scaling_governor", "schedutil")]
    );
}

#[test]
fn fast_lock_hardware_maximum_includes_boost() {
    assert_eq!(policy_hw_max("300000 1804800 960000", &vec![]), Some(1804800));
    assert_eq!(policy_hw_max("300000 1804800", &vec![2016000]), Some(2016000));
    assert_eq!(policy_hw_max("", &vec![2016000]), None);
    assert_eq!(read_u32_value(Some(" 960000\n")), Some(960000));
    assert_eq!(read_u32_value(Some("x")), None);
}

#[test]
fn fast_lock_writes_max_before_min() {
    assert_eq!(
        pairs(&lock_writes(3, 2419200)),
        vec![
            p("/sys/devices/system/cpu/cpufreq/policy3/scaling_max_freq", "2419200"),
            p("/sys/devices/system/cpu/cpufreq/policy3/scaling_min_freq", "2419200"),
        ]
    );
}

#[test]
fn fast_lock_cycle() {
    let mut f = FastLock::new(0);
    f.take_snapshot(0, 1804800, Some("walt\n"), Some("300000"), Some("1804800"));
    f.add_locked(0, 1804800, true);
    f.finish_init(1000);
    assert!(f.is_active());
    assert!(f.tick(5999).is_empty());
    let w = f.tick(6000);
    assert_eq!(w.len(), 2);
    assert!(f.tick(7000).is_empty());
    let plan = f.restore_plan();
    assert_eq!(
        pairs(&plan[0]),
        vec![
            p("/sys/devices/system/cpu/cpufreq/policy0/scaling_governor", "walt"),
            p("/sys/devices/system/cpu/cpufreq/policy0/scaling_max_freq", "1804800"),
            p("/sys/devices/system/cpu/cpufreq/policy0/scaling_min_freq", "300000"),
            p("/sys/devices/system/cpu/cpufreq/policy0/scaling_max_freq", "1804800"),
        ]
    );
    f.release(&vec![false]);
    assert!(!f.is_active());
    assert_eq!(f.restore_plan().len(), 1);
    f.release(&vec![true]);
    assert!(f.restore_plan().is_empty());
}

#[test]
fn fast_snapshot_replaces_older_one_of_same_policy() {
    let mut f = FastLock::new(0);
    f.take_snapshot(4, 100, None, None, None);
    f.take_snapshot(4, 200, Some("x"), None, None);
    let plan = f.restore_plan();
    assert_eq!(plan.len(), 1);
    assert_eq!(pairs(&plan[0])[1], p("/sys/devices/system/cpu/cpufreq/policy4/scaling_max_freq", "200"));
}

#[test]
fn gpu_ranges() {
    assert_eq!(read_freq_range(Some("587000000 220000000 680000000")), Some((220000000, 680000000)));
    assert_eq!(read_freq_range(Some("")), None);
    assert_eq!(
        probe_range("/sys/class/kgsl/kgsl-3d0", None, Some("680000000"), None),
        Some((680000000, 680000000))
    );
    assert_eq!(
        probe_range("/sys/class/kgsl/kgsl-3d0", None, Some("680000000"), Some("220000000\n")),
        Some((220000000, 680000000))
    );
    assert_eq!(probe_range("/sys/class/devfreq/gpu", None, Some("1"), None), None);
    assert_eq!(probe_range("/d", Some("0 5"), None, None), None);
}

#[test]
fn gpu_device_names() {
    assert!(is_gpu_devfreq_name("13000000.Mali"));
    assert!(is_gpu_devfreq_name("kgsl-3d0"));
    assert!(is_gpu_devfreq_name("GPUfreq"));
    assert!(!is_gpu_devfreq_name("soc:qcom,cpu-llcc"));
}

#[test]
fn gpu_lock_and_release() {
    let mut g = GpuGuard::new();
    assert!(!g.lock_due());
    g.add_node(GpuNode::probe("/sys/class/kgsl/kgsl-3d0", (220000000, 680000000), true, Some("680000000\n"), Some("680000000")));
    assert!(g.lock_due());
    let w = g.lock_max_write(0);
    assert_eq!((w.path.as_str(), w.value.as_str()), ("/sys/class/kgsl/kgsl-3d0/max_freq", "680000000"));
    assert!(g.lock_min_write(0, false).is_none());
    assert!(g.lock_min_write(0, true).is_some());
    g.finish_lock(&vec![true]);
    assert!(g.is_active());
    assert!(!g.lock_due());
    assert_eq!(
        pairs(&g.release()),
        vec![
            p("/sys/class/kgsl/kgsl-3d0/min_freq", "220000000"),
            p("/sys/class/kgsl/kgsl-3d0/max_freq", "680000000"),
        ]
    );
    assert!(!g.is_active());
    assert!(g.release().is_empty());
}

#[test]
fn gpu_reprobe_replaces_node() {
    let mut g = GpuGuard::new();
    g.add_node(GpuNode::probe("/a", (1, 2), false, None, None));
    g.add_node(GpuNode::probe("/b", (1, 2), false, None, None));
    g.add_node(GpuNode::probe("/a", (1, 3), false, None, None));
    assert_eq!(g.node_count(), 2);
    assert_eq!(g.lock_max_write(1).value, "3");
}

#[test]
fn fast_takeover_snapshots_then_writes_schedutil() {
    let mut f = FastLock::new(0);
    let w = f.begin_takeover(2, 2_400_000, Some("walt\n"), Some("300000"), Some("2400000"));
    assert_eq!(pairs(&w), vec![p("/sys/devices/system/cpu/cpufreq/policy2/scaling_governor", "schedutil")]);
    assert_eq!(f.restore_plan().len(), 1);
    assert!(lock_max_first(2, 2_400_000, false).is_none());
    let m = lock_max_first(2, 2_400_000, true).unwrap();
    assert_eq!((m.path.as_str(), m.value.as_str()), ("/sys/devices/system/cpu/cpufreq/policy2/scaling_max_freq", "2400000"));
    assert!(lock_min_after(2, 2_400_000, false).is_none());
    let n = lock_min_after(2, 2_400_000, true).unwrap();
    assert_eq!((n.path.as_str(), n.value.as_str()), ("/sys/devices/system/cpu/cpufreq/policy2/scaling_min_freq", "2400000"));
}
