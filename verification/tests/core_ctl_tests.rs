use chiri::common::chiri_core_ranges;
use chiri::core_ctl::{
    cluster_cpus, core_ctl_dir, cpu_node, force_online_needed, max_cpus_is_residual,
    online_tampered, parse_enable, read_nonblank, residual_fixed, restore_readback_ok,
    reserved_core_for, scenemode_targets, target_state, CoreCtlCluster, CoreCtlManager, PowerState,
    PowerStep, ReleaseStep, ShrinkStep, SwitchAction,
};

fn cluster(first: u32, size: u32, max: Option<&str>, enable: Option<bool>) -> CoreCtlCluster {
    CoreCtlCluster {
        dir: core_ctl_dir(first),
        first_cpu: first,
        cluster_size: size,
        min_cpus: "1".to_string(),
        max_cpus: max.map(|s| s.to_string()),
        enable,
    }
}

#[test]
fn targets_are_prime_without_core_zero() {
    assert_eq!(scenemode_targets(&chiri_core_ranges(None)), vec![7]);
    assert_eq!(scenemode_targets(&chiri_core_ranges(Some("8998"))), Vec::<u32>::new());
    let r = chiri::common::CoreGroupRanges { little: 0..1, big: 1..2, prime: 0..3 };
    assert_eq!(scenemode_targets(&r), vec![1, 2]);
}

#[test]
fn boost_wins_over_scene_mode() {
    assert!(target_state(true, true) == PowerState::Boost);
    assert!(target_state(false, true) == PowerState::SceneMode);
    assert!(target_state(false, false) == PowerState::Normal);
}

#[test]
fn discovery_parsers() {
    assert_eq!(cluster_cpus("4 5 6\n"), vec![4, 5, 6]);
    assert_eq!(core_ctl_dir(4), "/sys/devices/system/cpu/cpu4/core_ctl");
    assert_eq!(cpu_node(7, "online"), "/sys/devices/system/cpu/cpu7/online");
    assert!(max_cpus_is_residual("0", "1"));
    assert!(max_cpus_is_residual("1", "2"));
    assert!(!max_cpus_is_residual("4", "2"));
    assert!(!max_cpus_is_residual("x", "2"));
    assert!(max_cpus_is_residual("0", "x"));
    assert_eq!(parse_enable(Some("1\n")), Some(true));
    assert_eq!(parse_enable(Some("TRUE")), Some(true));
    assert_eq!(parse_enable(Some("0")), Some(false));
    assert_eq!(parse_enable(None), None);
    assert_eq!(read_nonblank(Some(" 2\n")), Some("2".to_string()));
    assert_eq!(read_nonblank(Some(" \n")), None);
    assert_eq!(residual_fixed(true, Some("4\n"), "4"), Some("4".to_string()));
    assert_eq!(residual_fixed(true, Some("0"), "4"), None);
    assert_eq!(residual_fixed(false, Some("4"), "4"), None);
}

#[test]
fn power_state_steps() {
    let mut m = CoreCtlManager::new();
    assert!(matches!(m.plan_power_state(false, false), PowerStep::Idle));
    assert!(matches!(m.plan_power_state(true, false), PowerStep::Switch(PowerState::Boost)));
    m.set_state(PowerState::SceneMode);
    assert!(matches!(m.plan_power_state(false, true), PowerStep::Maintain));
    assert!(matches!(m.release(), ReleaseStep::RestoreOnline));
    assert!(matches!(m.release(), ReleaseStep::Nothing));
    assert!(m.state == PowerState::Normal);
}

#[test]
fn boost_writes_and_restore() {
    let mut m = CoreCtlManager::new();
    assert!(m.begin_discover());
    assert!(!m.begin_discover());
    m.add_cluster(cluster(0, 3, Some("3"), Some(true)));
    m.add_cluster(cluster(7, 1, Some("1"), Some(true)));
    let w = m.boost_writes();
    assert_eq!(w[1].path, "/sys/devices/system/cpu/cpu7/core_ctl/min_cpus");
    assert_eq!(w[0].value, "3");
    let r = m.restore_min_cpus_writes();
    assert_eq!(r[0].value, "1");
}

#[test]
fn shrink_prefers_core_ctl_and_books_it() {
    let mut m = CoreCtlManager::new();
    m.add_cluster(cluster(0, 3, Some("3"), Some(true)));
    m.add_cluster(cluster(7, 1, Some("1"), None));
    match m.shrink_plan(Some(7)) {
        ShrinkStep::Write(idx, path) => {
            assert_eq!(idx, 1);
            assert_eq!(path, "/sys/devices/system/cpu/cpu7/core_ctl/max_cpus");
        }
        _ => panic!("expected a write"),
    }
    assert!(!m.shrink_result(1, true, Some("2")));
    assert!(m.max_cpus_applied.is_none());
    assert!(m.shrink_result(1, true, None));
    assert_eq!(m.max_cpus_applied, Some(1));
    assert!(matches!(m.shrink_plan(Some(7)), ShrinkStep::AlreadyApplied));
    assert!(m.reassert_max_cpus(Some("0"), 1000).is_none());
    assert!(m.reassert_max_cpus(Some("1"), 1000).is_some());
    assert!(m.reassert_max_cpus(Some("1"), 60999).is_none());
    assert!(m.reassert_max_cpus(Some("1"), 61000).is_some());
    assert!(m.restore_max_cpus_step(Some("1")).is_none());
    assert!(m.max_cpus_applied.is_none());
}

#[test]
fn shrink_falls_back_without_usable_node() {
    let mut m = CoreCtlManager::new();
    m.add_cluster(cluster(7, 1, None, None));
    assert!(matches!(m.shrink_plan(Some(7)), ShrinkStep::Fallback));
    let mut m = CoreCtlManager::new();
    m.add_cluster(cluster(7, 1, Some("1"), Some(false)));
    assert!(matches!(m.shrink_plan(Some(7)), ShrinkStep::Fallback));
    assert!(matches!(m.shrink_plan(None), ShrinkStep::Fallback));
    assert!(matches!(m.shrink_plan(Some(4)), ShrinkStep::Fallback));
}

#[test]
fn restore_max_cpus_writes_snapshot_until_it_reads_back() {
    let mut m = CoreCtlManager::new();
    m.add_cluster(cluster(7, 1, Some("1"), None));
    assert!(m.shrink_result(0, true, Some("0")));
    let w = m.restore_max_cpus_step(Some("0")).unwrap();
    assert_eq!((w.path.as_str(), w.value.as_str()), ("/sys/devices/system/cpu/cpu7/core_ctl/max_cpus", "1"));
    m.restore_max_cpus_verify(Some("0"));
    assert_eq!(m.max_cpus_applied, Some(0));
    m.restore_max_cpus_verify(Some("1\n"));
    assert!(m.max_cpus_applied.is_none());
}

#[test]
fn offline_bookkeeping() {
    let mut m = CoreCtlManager::new();
    assert!(m.offline_candidate(7, Some("1\n")));
    assert!(!m.offline_candidate(7, Some("0")));
    assert!(!m.record_offlined(7, true, Some("1")));
    assert!(m.record_offlined(7, true, Some("0")));
    assert!(!m.offline_candidate(7, Some("1")));
    assert!(!m.record_offlined(7, true, Some("0")));
    assert_eq!(m.offlined.len(), 1);
    assert!(m.finish_restore_online(vec![(7, "1".to_string())]).is_none());
    m.reserve_core(2, Some("/top-app".to_string()));
    assert_eq!(m.finish_restore_online(vec![]), Some((vec![], Some("/top-app".to_string()))));
    assert!(m.reserved_core.is_none());
}

#[test]
fn pins_record_successes() {
    let mut m = CoreCtlManager::new();
    assert_eq!(m.pin_due(), None);
    m.reserve_core(2, None);
    assert_eq!(m.pin_due(), Some(2));
    m.record_pins(&vec![(10, true), (11, false), (12, true)]);
    assert!(!m.self_pinned);
    assert_eq!(m.self_pinned_tids, vec![10, 12]);
    assert_eq!(m.take_pinned(), vec![10, 12]);
    m.keep_unpin_retry(10, true);
    m.keep_unpin_retry(12, false);
    assert_eq!(m.self_pinned_tids, vec![12]);
}

#[test]
fn online_checks() {
    assert!(restore_readback_ok(Some("1\n"), "1"));
    assert!(!restore_readback_ok(None, "1"));
    assert!(force_online_needed(Some("0")));
    assert!(!force_online_needed(Some("1")));
    assert!(!force_online_needed(None));
    assert!(online_tampered(Some("1")));
    assert!(!online_tampered(Some("0\n")));
    assert!(!online_tampered(None));
    let mut m = CoreCtlManager::new();
    m.set_state(PowerState::SceneMode);
    m.reset_after_force_online();
    assert!(m.state == PowerState::Normal);
}

#[test]
fn switch_plans_leave_then_enter() {
    let mut m = CoreCtlManager::new();
    assert_eq!(m.switch_plan(PowerState::Boost), vec![SwitchAction::RestorePendingResidue, SwitchAction::EnterBoost]);
    m.set_state(PowerState::SceneMode);
    assert_eq!(
        m.switch_plan(PowerState::Boost),
        vec![SwitchAction::RestoreOnline, SwitchAction::RestorePendingResidue, SwitchAction::EnterBoost]
    );
    m.set_state(PowerState::Boost);
    assert_eq!(
        m.switch_plan(PowerState::SceneMode),
        vec![SwitchAction::RestoreMinCpus, SwitchAction::RestorePendingResidue, SwitchAction::EnterSceneMode]
    );
    assert_eq!(m.switch_plan(PowerState::Normal), vec![SwitchAction::RestoreMinCpus, SwitchAction::RestorePendingResidue]);
}

#[test]
fn boost_release_writes_min_cpus_back() {
    let mut m = CoreCtlManager::new();
    m.add_cluster(cluster(0, 4, Some("4"), Some(true)));
    m.set_state(PowerState::Boost);
    match m.release() {
        ReleaseStep::RestoreMinCpus(ws) => {
            assert_eq!(ws.len(), 1);
            assert_eq!(ws[0].path, "/sys/devices/system/cpu/cpu0/core_ctl/min_cpus");
        }
        _ => panic!("boost release gives the min_cpus writes"),
    }
    assert!(m.state == PowerState::Normal);
    assert!(matches!(m.release(), ReleaseStep::Nothing));
}

#[test]
fn reserved_core_is_the_last_little_core() {
    assert_eq!(reserved_core_for(&chiri_core_ranges(Some("8550"))), Some(2));
}
