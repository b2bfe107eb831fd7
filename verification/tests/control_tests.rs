use chiri::common::{chiri_core_ranges, DaemonFlags};
use chiri::config::{
    d_ak_down_hold_ms, d_aff_uclamp_max, d_aff_uclamp_min, d_clg_down_rate, d_clg_touch_boost_ms,
    d_clg_touch_boost_tiers, d_clg_up_rate, default_iostats, default_language, default_loglevel,
    default_nomerges, default_read_ahead_kb, default_scene_mode_delay_secs, mode_slot,
    normalize_down_hold, normalize_touch_boost, AffinityConfig, CoreCtlConfig, IOSettings, Meta,
    ModeSlot,
};
use chiri::layout::{
    home_core_valid, lab_assignments, pin_cap_ok, pref_pool, uclamp_version_ok, AffinityLayout,
    CgroupPresence, LayoutKind, PinCounts, UclampSupport, MAX_PINS_PER_CORE,
    fg_thread_action, return_banned, thread_departed, thread_gone, thread_stale, FgThreadAction,
};
use chiri::limit::{freq_at_least, freq_table, TunedTakeover, limit_takeover, AkLimit, LimitDecision, RestoreSet, TunedLimit};
use chiri::lists::parse_special_tuned;
use chiri::modes::{
    affinity_plan, battery_charge_state, clg_step, is_boost_mode, is_input_event_node,
    mode_takeover, policy_id_of, policy_ids, resume_takeover, sync_lab_governor_gpu, touch_down,
    tuned_boost_affinity, AffinityPlan, AtomicTouchState, BatteryStatusWarn, ClgStep,
    GpuSnapClock, ResumeTakeover, Takeover,
};
use chiri::scene::{SceneEntry, SceneState};
use chiri::tweaks::{
    cpu_idle_write, queue_writes, sched_param_write, snapshot_value, touch_boost_disable_writes,
    TweakSnapshot,
};

fn s(x: &str) -> String {
    x.to_string()
}

#[test]
fn config_defaults() {
    assert_eq!(default_loglevel(), "INFO");
    assert_eq!(default_language(), "en");
    assert_eq!((d_clg_down_rate(), d_clg_up_rate()), (3, 2));
    assert_eq!((d_clg_touch_boost_ms(), d_clg_touch_boost_tiers()), (400, 1));
    assert_eq!(d_ak_down_hold_ms(), 100);
    assert_eq!((d_aff_uclamp_min(), d_aff_uclamp_max()), (0, 0));
    assert_eq!(default_scene_mode_delay_secs(), 300);
    assert_eq!((default_read_ahead_kb(), default_nomerges(), default_iostats()), (s("128"), s("2"), s("0")));
    let io = IOSettings::default();
    assert_eq!(io.scheduler, "");
    let m = Meta::default();
    assert_eq!(m.loglevel, "");
    assert!(!m.fas_enabled);
    let c = CoreCtlConfig::default();
    assert!(c.enabled && c.scenemode_offline);
}

#[test]
fn config_clamps() {
    assert_eq!(normalize_touch_boost(true, 0, 9), (1, 8));
    assert_eq!(normalize_touch_boost(true, 5000, 2), (1000, 2));
    assert_eq!(normalize_touch_boost(false, 400, 1), (0, 1));
    assert_eq!(normalize_down_hold(9000), 5000);
    assert_eq!(normalize_down_hold(100), 100);
    let mut a = AffinityConfig::default();
    a.top_app_uclamp_min_pct = 150;
    a.top_app_uclamp_max_pct = 85;
    a.normalize();
    assert_eq!((a.top_app_uclamp_min_pct, a.top_app_uclamp_max_pct), (100, 85));
    assert!(mode_slot("fast") == Some(ModeSlot::Fast));
    assert!(mode_slot("akmode").is_none());
}

#[test]
fn battery_states() {
    assert_eq!(battery_charge_state(Some("Charging\n")), "charging");
    assert_eq!(battery_charge_state(Some("Not charging")), "not_charging");
    assert_eq!(battery_charge_state(Some("FULL")), "full");
    assert_eq!(battery_charge_state(Some("weird")), "-");
    assert_eq!(battery_charge_state(None), "-");
    let mut w = BatteryStatusWarn::new();
    assert_eq!(w.observe(Some("weird")), ("-", true));
    assert_eq!(w.observe(Some("weird")), ("-", false));
    assert_eq!(w.observe(None), ("-", false));
    assert_eq!(w.observe(Some("Discharging")), ("discharging", false));
    assert_eq!(w.observe(Some("weird")), ("-", true));
}

#[test]
fn policy_directory_ids_sorted() {
    assert_eq!(policy_id_of("policy7"), Some(7));
    assert_eq!(policy_id_of("policyx"), None);
    assert_eq!(policy_id_of("cpu0"), None);
    let names = vec![s("policy7"), s("ondemand"), s("policy0"), s("policy4"), s("policy4")];
    assert_eq!(policy_ids(&names), vec![0, 4, 4, 7]);
}

#[test]
fn gpu_snapshot_every_ten_seconds() {
    let mut c = GpuSnapClock::new();
    assert!(!c.gpu_snapshot_due(9_999));
    assert!(c.gpu_snapshot_due(10_000));
    assert!(!c.gpu_snapshot_due(19_999));
    assert!(c.gpu_snapshot_due(20_000));
}

#[test]
fn mode_decisions() {
    let list = parse_special_tuned("com.game:akmode:akmode\n");
    let flags = DaemonFlags::new();
    assert!(is_boost_mode(&flags, &list, "vector"));
    assert!(is_boost_mode(&flags, &list, "akmode"));
    assert!(!is_boost_mode(&flags, &list, "default"));
    assert!(!tuned_boost_affinity(&flags, &list, "akmode", false));
    assert!(tuned_boost_affinity(&flags, &list, "boost", false));
    assert!(mode_takeover(&flags, &list, "akmode") == Takeover::Special);
    assert!(mode_takeover(&flags, &list, "vector") == Takeover::Vector);
    assert!(mode_takeover(&flags, &list, "balance") == Takeover::Clg);
    assert!(clg_step(false, true) == ClgStep::Release);
    assert!(clg_step(true, true) == ClgStep::Reload);
    assert!(clg_step(true, false) == ClgStep::Init);
    let c = sync_lab_governor_gpu("contingency", false, true, false);
    assert!(c.activate_governor && !c.lock_gpu && c.init_fast_lock);
    let b = sync_lab_governor_gpu("babel", true, true, true);
    assert!(!b.activate_governor && b.release_gpu && !b.init_fast_lock);
    let o = sync_lab_governor_gpu("balance", true, false, true);
    assert!(o.release_governor && !o.release_gpu && !o.init_fast_lock);
}

#[test]
fn affinity_plans() {
    assert!(matches!(affinity_plan("babel", false, true, false, true, true, false), AffinityPlan::Lab { apply: false }));
    assert!(matches!(affinity_plan("boost", true, true, true, true, true, false), AffinityPlan::Scene));
    match affinity_plan("fas", true, true, false, false, true, false) {
        AffinityPlan::Apply { boost, uclamp_override, corectl_boost } => {
            assert!(boost && uclamp_override.is_none() && corectl_boost)
        }
        _ => panic!(),
    }
    match affinity_plan("akmode", true, false, false, true, true, true) {
        AffinityPlan::Apply { boost, uclamp_override, corectl_boost } => {
            assert!(boost && uclamp_override == Some(true) && !corectl_boost)
        }
        _ => panic!(),
    }
}

#[test]
fn touch_window() {
    let mut t = AtomicTouchState::new();
    assert_eq!(t.get_floor_bits(5), 0);
    t.set(0x3f00_0000, 400, 1_000);
    assert_eq!(t.get_floor_bits(1_000), 0x3f00_0000);
    assert_eq!(t.get_floor_bits(1_399), 0x3f00_0000);
    assert_eq!(t.get_floor_bits(1_400), 0);
    t.set(7, 10, 0x1_0000_0000 - 5);
    assert_eq!(t.get_floor_bits(0x1_0000_0000 + 2), 7);
    assert!(is_input_event_node("event3"));
    assert!(!is_input_event_node("mice"));
    assert!(touch_down(1, 330, 1));
    assert!(touch_down(3, 57, 0));
    assert!(!touch_down(3, 57, -1));
    assert!(!touch_down(1, 330, 0));
}

#[test]
fn plain_limiter() {
    let mut l = AkLimit::new(2_000_000);
    assert!(l.step(2_100_000, 60_000, 100, 0) == (LimitDecision::Up, true));
    l.after_write(LimitDecision::Up, 2_100_000, true);
    assert_eq!(l.current_max, 2_100_000);
    assert!(l.step(1_000_000, 60_000, 100, 10) == (LimitDecision::DownWait, false));
    assert!(l.step(1_000_000, 60_000, 100, 50) == (LimitDecision::DownWait, false));
    assert!(l.step(1_000_000, 60_000, 100, 110) == (LimitDecision::Down, true));
    l.after_write(LimitDecision::Down, 1_000_000, true);
    assert_eq!(l.current_max, 1_000_000);
    assert!(l.down_since_ms.is_none());
    assert!(l.step(1_050_000, 60_000, 100, 200) == (LimitDecision::Hold, false));
}

#[test]
fn dwell_gated_limiter() {
    let mut l = TunedLimit::new(2_000_000);
    assert!(l.step(1_000_000, 50_000, 0, 500, 0) == (LimitDecision::DownWait, false));
    assert!(l.step(1_000_000, 50_000, 0, 500, 1) == (LimitDecision::Down, true));
    l.after_write(LimitDecision::Down, 1_000_000, true, 1);
    assert_eq!(l.last_write_dir, -1);
    assert!(l.step(1_500_000, 50_000, 0, 500, 100) == (LimitDecision::Up, false));
    assert!(l.step(1_500_000, 50_000, 0, 500, 501) == (LimitDecision::Up, true));
    l.after_write(LimitDecision::Up, 1_500_000, false, 501);
    assert!(l.last_failed);
    assert_eq!(freq_at_least(&vec![300, 600, 900], 500), 600);
    assert_eq!(freq_at_least(&vec![300, 600, 900], 1000), 900);
    assert_eq!(freq_at_least(&vec![], 1), 0);
}

#[test]
fn limiter_restore_order() {
    let w = limit_takeover(4, 300_000, 2_400_000);
    assert_eq!(w[0].value, "schedutil");
    assert_eq!(w[1].path, "/sys/devices/system/cpu/cpufreq/policy4/scaling_min_freq");
    assert_eq!(w[2].value, "2400000");
    let mut r = RestoreSet::new();
    r.take_snapshot(4, Some("walt"), Some("300000"), Some("2400000"));
    let p = r.restore_plan();
    assert_eq!(p[0][0].path, "/sys/devices/system/cpu/cpufreq/policy4/scaling_max_freq");
    assert_eq!(p[0][1].path, "/sys/devices/system/cpu/cpufreq/policy4/scaling_min_freq");
    assert_eq!(p[0][2].value, "walt");
    r.finish_release(&vec![true]);
    assert_eq!(r.len(), 0);
}

#[test]
fn tweak_snapshots() {
    assert_eq!(snapshot_value("none [mq-deadline] kyber\n"), "mq-deadline");
    assert_eq!(snapshot_value(" 128 "), "128");
    assert_eq!(snapshot_value("] x ["), "] x [");
    let mut t = TweakSnapshot::new();
    t.record("/a", Some("1"));
    t.record("/a", Some("2"));
    t.record("/b", None);
    let w = t.restore_all();
    assert_eq!(w.len(), 1);
    assert_eq!(w[0].value, "1");
    assert!(t.restore_all().is_empty());
}

#[test]
fn tweak_writes() {
    let w = sched_param_write("sched_latency_ns", "10000000").unwrap();
    assert_eq!(w.path, "/proc/sys/kernel/sched_latency_ns");
    assert!(sched_param_write("panic", "1").is_none());
    assert!(sched_param_write("sched_nr_migrate", "  ").is_none());
    assert!(cpu_idle_write(true, "teo", true).is_some());
    assert!(cpu_idle_write(true, "", true).is_none());
    let io = IOSettings { scheduler: s(""), read_ahead_kb: s("128"), nomerges: s("2"), iostats: s("0") };
    let q = queue_writes("/sys/block/sda/queue", &io);
    assert_eq!(q.len(), 3);
    assert_eq!(q[0].path, "/sys/block/sda/queue/read_ahead_kb");
    assert_eq!(touch_boost_disable_writes().len(), 4);
}

#[test]
fn scene_mode_entry_and_saturation_exit() {
    let mut sc = SceneState::new();
    assert!(!sc.on_screen_change(true, 0));
    assert!(sc.on_screen_change(false, 0));
    assert!(sc.tick(true, false, 300, false, 59_000).entry == SceneEntry::NotYet);
    assert!(sc.tick(true, false, 30, false, 60_000).entry == SceneEntry::Enter);
    assert!(sc.active);
    let t = sc.tick(true, false, 30, true, 61_000);
    assert!(!t.exit_saturated);
    let t = sc.tick(true, false, 30, true, 71_000);
    assert!(t.exit_saturated);
    assert!(!sc.active);
    assert!(sc.tick(true, false, 30, false, 100_000).entry == SceneEntry::NotYet);
    assert!(sc.tick(true, false, 30, false, 371_000).entry == SceneEntry::Enter);
}

#[test]
fn scene_mode_hold_and_long_off() {
    let mut sc = SceneState::new();
    sc.on_screen_change(false, 0);
    assert!(sc.tick(true, false, 300, true, 300_000).entry == SceneEntry::Hold { log: true });
    assert!(sc.tick(true, false, 300, true, 301_000).entry == SceneEntry::Hold { log: false });
    assert!(sc.tick(true, true, 300, false, 1_300_000).entry == SceneEntry::NotYet);
    assert!(sc.tick(true, false, 300, true, 1_200_000).entry == SceneEntry::Enter);
    let t = sc.tick(false, false, 300, false, 1_200_001);
    assert!(t.exit_disabled && !sc.active);
}

#[test]
fn layout_rounds() {
    let mut l = AffinityLayout::new(0);
    assert!(!l.is_active());
    let p = CgroupPresence {
        top_app: true,
        foreground: true,
        background: true,
        system_background: false,
        restricted: true,
        cpuctl_top_app: true,
    };
    let reads = vec![(s("background"), Some(s("0-7"))), (s("top-app"), Some(s("0-7"))), (s("foreground"), None)];
    l.ensure_snapshot(&reads, Some("0\n"), Some("max"));
    let plan = l.apply_plan(true, "3-7", "0-2", &p, 10);
    assert!(plan.apply_uclamp_max);
    let paths: Vec<String> = plan.writes.iter().map(|w| w.path.clone()).collect();
    assert_eq!(
        paths,
        vec![
            s("/dev/cpuset/top-app/cpus"),
            s("/dev/cpuset/foreground/cpus"),
            s("/dev/cpuctl/top-app/cpu.uclamp.min"),
            s("/dev/cpuset/background/cpus"),
            s("/dev/cpuset/restricted/cpus"),
        ]
    );
    assert!(l.apply_plan(true, "3-7", "0-2", &p, 10).writes.is_empty());
    let back = l.apply_plan(false, "3-7", "0-2", &p, 10);
    let vals: Vec<(String, String)> = back.writes.iter().map(|w| (w.path.clone(), w.value.clone())).collect();
    assert_eq!(vals[0], (s("/dev/cpuset/top-app/cpus"), s("0-7")));
    assert_eq!(vals[1], (s("/dev/cpuctl/top-app/cpu.uclamp.min"), s("0")));
    assert_eq!(vals[2], (s("/dev/cpuctl/top-app/cpu.uclamp.max"), s("max")));
    assert!(l.applied_kind == LayoutKind::Normal);
    let r = l.release();
    assert_eq!(r[0].path, "/dev/cpuset/background/cpus");
    assert!(!l.is_active());
}

#[test]
fn uclamp_max_support_probe() {
    assert!(uclamp_version_ok(Some((5, 3, 0))));
    assert!(!uclamp_version_ok(Some((4, 19, 1))));
    let mut l = AffinityLayout::new(0);
    assert!(l.uclamp_max_plan(85, Some((4, 4, 0)), true).is_none());
    assert!(l.uclamp_max_support == UclampSupport::Unsupported);
    let mut l = AffinityLayout::new(0);
    let w = l.uclamp_max_plan(85, Some((5, 10, 0)), true).unwrap();
    assert_eq!(w.value, "85.00");
    l.uclamp_max_verified(true);
    let o = l.set_boost_uclamp_override(true, None, false, Some("85.00\n")).unwrap();
    assert_eq!(o.value, "100.00");
    assert_eq!(l.boost_uclamp_prev, Some(s("85.00")));
    assert!(l.set_boost_uclamp_override(false, None, false, None).is_none());
    assert!(l.boost_uclamp_prev.is_none());
}

#[test]
fn lab_groupings() {
    let r = chiri_core_ranges(None);
    let c = lab_assignments("contingency", &r, None);
    assert_eq!(c[0].0, vec!["top-app", "foreground"]);
    assert_eq!(c[0].1, "0-7");
    assert_eq!(c[1].1, "0-1");
    let b = lab_assignments("babel", &r, None);
    assert_eq!(b[0].1, "3-7");
    assert_eq!(b[1].1, "3-6");
    assert_eq!(b[2].1, "0-2");
    assert!(lab_assignments("boost", &r, None).is_empty());
    let mut l = AffinityLayout::new(0);
    assert!(l.lab_begin("babel"));
    assert!(!l.lab_begin("babel"));
    l.lab_group_snapshot.push((s("top-app"), s("0-7")));
    let w = l.lab_static_deactivate();
    assert_eq!(w[0].path, "/dev/cpuset/top-app/cpus");
    assert!(l.lab_static_deactivate().is_empty());
}

#[test]
fn pin_counting() {
    let mut p = PinCounts::new();
    assert_eq!(p.pinned_of(5), 0);
    p.add_pinned(5, 1);
    p.add_pinned(5, 1);
    assert_eq!(p.pinned_of(5), 2);
    assert_eq!(p.pinned_of(4), 0);
    p.add_pinned(5, -3);
    assert_eq!(p.pinned_of(5), 0);
    p.add_pinned(2, 3);
    assert!(!pin_cap_ok(&p, 2));
    assert!(pin_cap_ok(&p, 3));
    assert_eq!(MAX_PINS_PER_CORE, 3);
}

#[test]
fn preferred_pool_overflows_only_when_main_full() {
    let mut p = PinCounts::new();
    let main = vec![3usize, 4, 5];
    let over = vec![6usize, 7];
    assert_eq!(pref_pool(&main, &over, &p), vec![3, 4, 5]);
    p.add_pinned(3, 1);
    p.add_pinned(4, 1);
    assert_eq!(pref_pool(&main, &over, &p), vec![3, 4, 5]);
    p.add_pinned(5, 1);
    p.add_pinned(7, 1);
    assert_eq!(pref_pool(&main, &over, &p), vec![3, 4, 5, 6]);
}

#[test]
fn home_core_checks() {
    let online = vec![true, true, false, true];
    let pool = vec![1usize, 2, 3];
    assert!(home_core_valid(1, 8, &online, &pool));
    assert!(!home_core_valid(-1, 8, &online, &pool));
    assert!(!home_core_valid(2, 8, &online, &pool));
    assert!(!home_core_valid(0, 8, &online, &pool));
    assert!(!home_core_valid(3, 3, &online, &pool));
    assert!(home_core_valid(3, 4, &online, &pool));
    assert!(!home_core_valid(9, 10, &online, &pool));
}

#[test]
fn unpin_restores_count() {
    let mut p = PinCounts::new();
    p.add_pinned(6, 2);
    p.add_pinned(6, 3);
    p.add_pinned(6, -3);
    assert_eq!(p.pinned_of(6), 2);
    p.add_pinned(1, 4);
    p.add_pinned(1, -4);
    assert_eq!(p.pinned_of(1), 0);
}

#[test]
fn frequency_table_sorted_without_repeats() {
    assert_eq!(freq_table(&vec![1800, 300, 1800, 960, 300]), vec![300, 960, 1800]);
    assert_eq!(freq_table(&vec![]), Vec::<u32>::new());
}

#[test]
fn resume_rebuilds_the_mode_takeover() {
    let list = parse_special_tuned("com.game:gamemode,daily:gamemode\n");
    let flags = DaemonFlags::new();
    assert!(resume_takeover(&flags, &list, "com.game", "vector") == ResumeTakeover::Fast);
    assert!(resume_takeover(&flags, &list, "com.game", "fas") == ResumeTakeover::Fas);
    assert!(resume_takeover(&flags, &list, "com.game", "gamemode") == ResumeTakeover::Special);
    assert!(resume_takeover(&flags, &list, "com.other", "gamemode") == ResumeTakeover::Nothing);
    assert!(resume_takeover(&flags, &list, "com.game", "balance") == ResumeTakeover::Clg);
}

#[test]
fn thread_lifecycle_rules() {
    assert!(thread_departed(true, 100, 200));
    assert!(!thread_departed(false, 100, 200));
    assert!(!thread_departed(true, 200, 200));
    assert!(thread_gone(true, 200, 200, false));
    assert!(!thread_gone(true, 200, 200, true));
    assert!(thread_stale(40_001, 10_000));
    assert!(!thread_stale(40_000, 10_000));
    assert!(!thread_stale(5, 10_000));
    assert!(return_banned(4, 4, 20_000, 10_000));
    assert!(!return_banned(4, 4, 26_000, 10_000));
    assert!(!return_banned(-1, 4, 20_000, 10_000));
}

#[test]
fn foreground_thread_steps() {
    assert!(fg_thread_action(true, true, false, false, -1, false, 0, 0) == FgThreadAction::BindGroup);
    assert!(fg_thread_action(true, true, false, true, -1, false, 0, 0) == FgThreadAction::Keep);
    assert!(fg_thread_action(true, false, false, false, -1, false, 0, 0) == FgThreadAction::Pin);
    assert!(fg_thread_action(true, false, false, false, 5, true, 9_000, 1_000) == FgThreadAction::Relieve);
    assert!(fg_thread_action(true, false, false, false, 5, true, 8_000, 1_000) == FgThreadAction::Keep);
    assert!(fg_thread_action(false, false, true, false, 5, true, 0, 0) == FgThreadAction::Unpin);
    assert!(fg_thread_action(false, true, true, false, -1, true, 0, 0) == FgThreadAction::RestoreMask);
    assert!(fg_thread_action(false, false, false, false, -1, true, 0, 0) == FgThreadAction::Keep);
}

#[test]
fn tuned_takeover_qualifies_and_writes_lowest_and_highest() {
    let mut t = TunedTakeover::new();
    assert!(t.add_policy(0, &vec![], Some("little"), true, None, None, None).is_none());
    assert!(t.add_policy(0, &vec![300, 600], None, true, None, None, None).is_none());
    assert!(t.add_policy(0, &vec![300, 600], Some("little"), false, None, None, None).is_none());
    assert!(!t.finish());
    let ws = t
        .add_policy(4, &vec![1800, 600, 1800, 1200], Some("big"), true, Some("walt"), Some("600"), Some("1800"))
        .unwrap();
    let got: Vec<(String, String)> = ws.iter().map(|w| (w.path.clone(), w.value.clone())).collect();
    assert_eq!(
        got,
        vec![
            ("/sys/devices/system/cpu/cpufreq/policy4/scaling_governor".to_string(), "schedutil".to_string()),
            ("/sys/devices/system/cpu/cpufreq/policy4/scaling_min_freq".to_string(), "600".to_string()),
            ("/sys/devices/system/cpu/cpufreq/policy4/scaling_max_freq".to_string(), "1800".to_string()),
        ]
    );
    assert_eq!(t.freqs_of(0), &vec![600, 1200, 1800]);
    assert!(t.finish());
    assert!(t.is_active());
    assert_eq!(t.restore_plan().len(), 1);
    t.drop_policies();
    assert!(!t.is_active());
}
