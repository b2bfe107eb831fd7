use chiri::events::{
    cooldown_active, cooldown_until, due, initial_mode, is_lab_mode, load_sink, load_stale,
    loop_wait, mode_switch, reload_action, remaining, resume_mode, screen_off_takeover,
    screen_on_takeover, startup_cleanup, startup_takeover, thermal_guard_runs, FasEntry, LoadSink, ModeSwitch,
    ReloadAction, ScreenOff, ScreenOn, StartTakeover, LOAD_STALE_MS, TAKEOVER_COOLDOWN_MS,
};

#[test]
fn lab_modes() {
    assert!(is_lab_mode("contingency"));
    assert!(is_lab_mode("babel"));
    assert!(!is_lab_mode("balance"));
    assert!(!is_lab_mode(""));
}

#[test]
fn cooldowns() {
    assert!(!cooldown_active(None, 5));
    let until = cooldown_until(1_000);
    assert_eq!(until, 1_000 + TAKEOVER_COOLDOWN_MS);
    assert!(cooldown_active(Some(until), 1_000));
    assert!(cooldown_active(Some(until), until - 1));
    assert!(!cooldown_active(Some(until), until));
    assert_eq!(cooldown_until(u64::MAX - 5), u64::MAX);
}

#[test]
fn load_watchdog() {
    assert_eq!(LOAD_STALE_MS, 5_000);
    assert!(!load_stale(1_000, 5_999));
    assert!(load_stale(1_000, 6_000));
    assert!(!load_stale(9_000, 1_000));
}

#[test]
fn load_goes_to_the_first_active_governor() {
    assert!(load_sink(true, true, true) == LoadSink::Fas);
    assert!(load_sink(false, true, true) == LoadSink::Tuned);
    assert!(load_sink(false, false, true) == LoadSink::Clg);
    assert!(load_sink(false, false, false) == LoadSink::Nobody);
}

#[test]
fn screen_off_decisions() {
    assert!(screen_off_takeover(true, "akmode", false) == ScreenOff::KeepSpecial);
    assert!(screen_off_takeover(false, "fas", true) == ScreenOff::KeepFas);
    assert!(screen_off_takeover(false, "fas", false) == ScreenOff::Doze);
    assert!(screen_off_takeover(false, "balance", true) == ScreenOff::Doze);
}

#[test]
fn screen_on_decisions() {
    assert!(screen_on_takeover(true, true, false, "akmode", false) == ScreenOn::KeepSpecial);
    assert!(screen_on_takeover(true, false, true, "akmode", false) == ScreenOn::CooldownClg);
    assert!(screen_on_takeover(true, false, false, "akmode", false) == ScreenOn::StartSpecial);
    assert!(screen_on_takeover(false, false, false, "babel", false) == ScreenOn::Lab);
    assert!(screen_on_takeover(false, false, false, "vector", false) == ScreenOn::Vector);
    assert!(screen_on_takeover(false, false, false, "fas", true) == ScreenOn::KeepFas);
    assert!(screen_on_takeover(false, false, false, "fas", false) == ScreenOn::DefaultClg);
    assert!(screen_on_takeover(false, false, false, "balance", false) == ScreenOn::ModeClg);
}

#[test]
fn mode_switch_decisions() {
    assert!(mode_switch("balance", "balance", false, false, false, true) == ModeSwitch::Same);
    assert!(mode_switch("fas", "balance", true, true, false, true) == ModeSwitch::DelayFasExit);
    assert!(
        mode_switch("fas", "balance", false, true, false, true)
            == ModeSwitch::Enter { leave_lab: true, takeover: true, enter_lab: false }
    );
    assert!(mode_switch("balance", "fas", false, false, false, true) == ModeSwitch::EnterFas(FasEntry::NotReady));
    assert!(mode_switch("balance", "fas", false, true, true, true) == ModeSwitch::EnterFas(FasEntry::Cooldown));
    assert!(mode_switch("balance", "fas", false, true, false, false) == ModeSwitch::EnterFas(FasEntry::Activate));
    assert!(
        mode_switch("balance", "contingency", false, false, false, false)
            == ModeSwitch::Enter { leave_lab: false, takeover: false, enter_lab: true }
    );
}

#[test]
fn reload_decisions() {
    assert!(reload_action(true, true, false, "akmode", false) == ReloadAction::TunedReload);
    assert!(reload_action(true, false, false, "akmode", false) == ReloadAction::Nothing);
    assert!(reload_action(true, false, true, "akmode", true) == ReloadAction::CooldownClg);
    assert!(reload_action(true, false, false, "akmode", true) == ReloadAction::StartSpecial);
    assert!(reload_action(false, false, false, "vector", true) == ReloadAction::ReleaseClg);
    assert!(reload_action(false, false, false, "fas", true) == ReloadAction::Nothing);
    assert!(reload_action(false, false, false, "balance", true) == ReloadAction::ModeClg { release_others: true });
    assert!(reload_action(false, false, false, "balance", false) == ReloadAction::ModeClg { release_others: false });
}

#[test]
fn start_up() {
    assert_eq!(initial_mode(None, "performance"), "performance");
    assert_eq!(initial_mode(None, ""), "default");
    assert_eq!(initial_mode(None, "vector"), "default");
    assert_eq!(initial_mode(Some("powersave".to_string()), "fast"), "powersave");
    assert_eq!(initial_mode(Some("babel".to_string()), "fast"), "default");
    assert!(startup_takeover(true, "vector") == StartTakeover::Nothing);
    assert!(startup_takeover(false, "fas") == StartTakeover::Nothing);
    assert!(startup_takeover(false, "vector") == StartTakeover::Fast);
    assert!(startup_takeover(false, "balance") == StartTakeover::Clg);
    assert_eq!(resume_mode("fas", "balance"), "fas");
    assert_eq!(resume_mode("", "balance"), "balance");
    assert!(thermal_guard_runs(false, "balance", true));
    assert!(!thermal_guard_runs(false, "fas", true));
    assert!(thermal_guard_runs(false, "fas", false));
    assert!(!thermal_guard_runs(true, "balance", false));
}

#[test]
fn timers() {
    assert_eq!(remaining(1_000, 2_000, 1_500), 1_500);
    assert_eq!(remaining(1_000, 2_000, 3_000), 0);
    assert_eq!(remaining(5_000, 2_000, 1_000), 2_000);
    assert!(due(1_000, 2_000, 3_500));
    assert!(!due(1_000, 2_000, 2_500));
    let tasks = vec![(1_000u64, 1_000u64), (0, 2_000), (0, 5_000)];
    assert_eq!(loop_wait(&tasks, 1_200, 1_000, None), 800);
    assert_eq!(loop_wait(&tasks, 1_200, 500, None), 500);
    assert_eq!(loop_wait(&tasks, 1_200, 1_000, Some(300)), 300);
    assert_eq!(loop_wait(&tasks, 2_500, 1_000, None), 0);
}

#[test]
fn start_up_repairs_only_while_running() {
    let c = startup_cleanup(false);
    assert!(c.force_online && c.clear_residue && !c.report_residue);
    let c = startup_cleanup(true);
    assert!(!c.force_online && !c.clear_residue && c.report_residue);
}
