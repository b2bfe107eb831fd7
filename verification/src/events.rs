//! The decisions of the scheduling loop: which governor holds the
//! frequencies after each event (screen, mode change, configuration
//! reload, load sample, stop switch), and the loop's timers.
use vstd::prelude::*;
use crate::config::{mode_slot, ModeSlot};
use crate::text::{chars_to_string, str_eq, str_to_chars};

verus! {

/// Milliseconds without a load sample after which the load source counts
/// as gone.
pub const LOAD_STALE_MS: u64 = 5000;

/// How long a failed takeover (special tuning, FAS) keeps the mode away.
pub const TAKEOVER_COOLDOWN_MS: u64 = 300000;

/// The static lab modes.
pub open spec fn lab_mode_spec(mode: Seq<char>) -> bool {
    mode == "contingency"@ || mode == "babel"@
}

/// contingency and babel group the cpusets statically.
pub fn is_lab_mode(mode: &str) -> (r: bool)
    ensures
        r == lab_mode_spec(mode@),
{
    str_eq(mode, "contingency") || str_eq(mode, "babel")
}

// ---------------------------------------------------------------------------
// [cooldowns]
// ---------------------------------------------------------------------------

/// A cooldown is running while `now` is before its end.
pub open spec fn cooldown_active_spec(until: Option<u64>, now_ms: u64) -> bool {
    match until {
        Some(u) => now_ms < u,
        None => false,
    }
}

pub fn cooldown_active(until: Option<u64>, now_ms: u64) -> (r: bool)
    ensures
        r == cooldown_active_spec(until, now_ms),
{
    match until {
        Some(u) => now_ms < u,
        None => false,
    }
}

/// The end of a cooldown started at `now` (saturating).
pub fn cooldown_until(now_ms: u64) -> (r: u64)
    ensures
        r == if now_ms as int + TAKEOVER_COOLDOWN_MS <= u64::MAX {
            (now_ms + TAKEOVER_COOLDOWN_MS) as u64
        } else {
            u64::MAX
        },
{
    now_ms.saturating_add(TAKEOVER_COOLDOWN_MS)
}

/// A cooldown started at `t` holds at `t` and has ended once its length
/// has passed (away from the top of the clock).
pub proof fn law_cooldown_expires(t: u64, later: u64)
    requires
        t as int + TAKEOVER_COOLDOWN_MS <= u64::MAX,
        t <= later,
    ensures
        cooldown_active_spec(Some((t + TAKEOVER_COOLDOWN_MS) as u64), t),
        later >= t + TAKEOVER_COOLDOWN_MS ==> !cooldown_active_spec(Some((t + TAKEOVER_COOLDOWN_MS) as u64), later),
{
}

/// The load source is gone when no sample came for `LOAD_STALE_MS`.
pub fn load_stale(last_ms: u64, now_ms: u64) -> (r: bool)
    ensures
        r == (now_ms >= last_ms && now_ms - last_ms >= LOAD_STALE_MS),
{
    now_ms >= last_ms && now_ms - last_ms >= LOAD_STALE_MS
}

// ---------------------------------------------------------------------------
// [load]
// ---------------------------------------------------------------------------

/// Who receives a load sample.
#[derive(PartialEq, Eq, Structural, Clone, Copy)]
pub enum LoadSink {
    Fas,
    Tuned,
    Clg,
    Nobody,
}

/// A load sample goes to the frame-aware engine while it is active, else
/// to special tuning, else to the CLG.
pub fn load_sink(fas_active: bool, tuned_active: bool, clg_active: bool) -> (r: LoadSink)
    ensures
        r == if fas_active {
            LoadSink::Fas
        } else if tuned_active {
            LoadSink::Tuned
        } else if clg_active {
            LoadSink::Clg
        } else {
            LoadSink::Nobody
        },
{
    if fas_active {
        LoadSink::Fas
    } else if tuned_active {
        LoadSink::Tuned
    } else if clg_active {
        LoadSink::Clg
    } else {
        LoadSink::Nobody
    }
}

// ---------------------------------------------------------------------------
// [screen]
// ---------------------------------------------------------------------------

/// The frequency takeover when the screen turns off.
#[derive(PartialEq, Eq, Structural, Clone, Copy)]
pub enum ScreenOff {
    /// A special mode keeps its governor.
    KeepSpecial,
    /// An active FAS instance keeps the frequencies.
    KeepFas,
    /// Special tuning and the fast lock are released and the CLG runs the
    /// screen-off configuration.
    Doze,
}

pub fn screen_off_takeover(special: bool, mode: &str, fas_active: bool) -> (r: ScreenOff)
    ensures
        r == if special {
            ScreenOff::KeepSpecial
        } else if mode@ == "fas"@ && fas_active {
            ScreenOff::KeepFas
        } else {
            ScreenOff::Doze
        },
{
    if special {
        ScreenOff::KeepSpecial
    } else if str_eq(mode, "fas") && fas_active {
        ScreenOff::KeepFas
    } else {
        ScreenOff::Doze
    }
}

/// The frequency takeover when the screen turns on (after the layout was
/// restored).
#[derive(PartialEq, Eq, Structural, Clone, Copy)]
pub enum ScreenOn {
    /// Special tuning is already running.
    KeepSpecial,
    /// Start special tuning (CLG released first; on failure a cooldown and
    /// the mode's CLG).
    StartSpecial,
    /// Special tuning is in its cooldown: the mode's CLG.
    CooldownClg,
    /// A lab mode: CLG, special tuning and fast lock released, then the lab
    /// governor/GPU state rebuilt.
    Lab,
    /// vector: special tuning and CLG released, the fast lock taken.
    Vector,
    /// An active FAS instance keeps the frequencies.
    KeepFas,
    /// The CLG with the default mode's section (a FAS mode whose engine is
    /// not active).
    DefaultClg,
    /// Special tuning and fast lock released; the CLG with the mode's
    /// section.
    ModeClg,
}

pub open spec fn screen_on_spec(
    special: bool,
    tuned_active: bool,
    in_cooldown: bool,
    mode: Seq<char>,
    fas_active: bool,
) -> ScreenOn {
    if special {
        if tuned_active {
            ScreenOn::KeepSpecial
        } else if in_cooldown {
            ScreenOn::CooldownClg
        } else {
            ScreenOn::StartSpecial
        }
    } else if lab_mode_spec(mode) {
        ScreenOn::Lab
    } else if mode == "vector"@ {
        ScreenOn::Vector
    } else if mode == "fas"@ {
        if fas_active {
            ScreenOn::KeepFas
        } else {
            ScreenOn::DefaultClg
        }
    } else {
        ScreenOn::ModeClg
    }
}

pub fn screen_on_takeover(
    special: bool,
    tuned_active: bool,
    in_cooldown: bool,
    mode: &str,
    fas_active: bool,
) -> (r: ScreenOn)
    ensures
        r == screen_on_spec(special, tuned_active, in_cooldown, mode@, fas_active),
{
    if special {
        if tuned_active {
            ScreenOn::KeepSpecial
        } else if in_cooldown {
            ScreenOn::CooldownClg
        } else {
            ScreenOn::StartSpecial
        }
    } else if is_lab_mode(mode) {
        ScreenOn::Lab
    } else if str_eq(mode, "vector") {
        ScreenOn::Vector
    } else if str_eq(mode, "fas") {
        if fas_active {
            ScreenOn::KeepFas
        } else {
            ScreenOn::DefaultClg
        }
    } else {
        ScreenOn::ModeClg
    }
}

// ---------------------------------------------------------------------------
// [mode_change]
// ---------------------------------------------------------------------------

/// How entering the FAS mode goes.
#[derive(PartialEq, Eq, Structural, Clone, Copy)]
pub enum FasEntry {
    /// The foreground app has no FAS configuration: the default CLG.
    NotReady,
    /// A failed start is cooling down: the default CLG.
    Cooldown,
    /// Every other governor released, then the engine started (on failure:
    /// a cooldown and the default CLG).
    Activate,
}

/// The steps of a change of mode, in order.
#[derive(PartialEq, Eq, Structural, Clone, Copy)]
pub enum ModeSwitch {
    /// The mode did not change.
    Same,
    /// Leaving an active FAS: the exit is delayed and the new mode kept
    /// pending; nothing else changes yet.
    DelayFasExit,
    /// Entering FAS (after the layout was applied).
    EnterFas(FasEntry),
    /// Entering any other mode (after the layout was applied and FAS was
    /// left): `leave_lab` gives back the lab grouping, governor, GPU and
    /// fast lock; `takeover` (screen on) runs the mode's takeover;
    /// `enter_lab` releases CLG, special tuning and fast lock before the lab
    /// state is rebuilt.
    Enter { leave_lab: bool, takeover: bool, enter_lab: bool },
}

pub open spec fn mode_switch_spec(
    old: Seq<char>,
    new: Seq<char>,
    fas_active: bool,
    fas_ready: bool,
    fas_cooldown: bool,
    screen_on: bool,
) -> ModeSwitch {
    if old == new {
        ModeSwitch::Same
    } else if old == "fas"@ && new != "fas"@ && fas_active {
        ModeSwitch::DelayFasExit
    } else if new == "fas"@ {
        ModeSwitch::EnterFas(
            if !fas_ready {
                FasEntry::NotReady
            } else if fas_cooldown {
                FasEntry::Cooldown
            } else {
                FasEntry::Activate
            },
        )
    } else {
        ModeSwitch::Enter {
            leave_lab: !lab_mode_spec(new),
            takeover: screen_on,
            enter_lab: lab_mode_spec(new),
        }
    }
}

pub fn mode_switch(
    old: &str,
    new: &str,
    fas_active: bool,
    fas_ready: bool,
    fas_cooldown: bool,
    screen_on: bool,
) -> (r: ModeSwitch)
    ensures
        r == mode_switch_spec(old@, new@, fas_active, fas_ready, fas_cooldown, screen_on),
{
    if str_eq(old, new) {
        ModeSwitch::Same
    } else if str_eq(old, "fas") && !str_eq(new, "fas") && fas_active {
        ModeSwitch::DelayFasExit
    } else if str_eq(new, "fas") {
        ModeSwitch::EnterFas(
            if !fas_ready {
                FasEntry::NotReady
            } else if fas_cooldown {
                FasEntry::Cooldown
            } else {
                FasEntry::Activate
            },
        )
    } else {
        let lab = is_lab_mode(new);
        ModeSwitch::Enter { leave_lab: !lab, takeover: screen_on, enter_lab: lab }
    }
}

// ---------------------------------------------------------------------------
// [reload]
// ---------------------------------------------------------------------------

/// What a configuration reload does to the running governor (screen on).
#[derive(PartialEq, Eq, Structural, Clone, Copy)]
pub enum ReloadAction {
    /// Special tuning takes the new profile.
    TunedReload,
    /// Special tuning is (re)started.
    StartSpecial,
    /// Special tuning is cooling down: the mode's CLG.
    CooldownClg,
    /// vector: a CLG that is running is released.
    ReleaseClg,
    /// The mode's CLG takes the new section (`release_others`: special
    /// tuning and the fast lock are released first).
    ModeClg { release_others: bool },
    /// Nothing (FAS keeps its own configuration; a special mode whose
    /// governor is not running waits for the next event).
    Nothing,
}

/// `rules`: the reload of the rules (which also restarts a special mode
/// that is not running); otherwise the reload of meta.yaml.
pub open spec fn reload_spec(
    special: bool,
    tuned_active: bool,
    in_cooldown: bool,
    mode: Seq<char>,
    rules: bool,
) -> ReloadAction {
    if special {
        if tuned_active {
            ReloadAction::TunedReload
        } else if !rules {
            ReloadAction::Nothing
        } else if in_cooldown {
            ReloadAction::CooldownClg
        } else {
            ReloadAction::StartSpecial
        }
    } else if mode == "vector"@ {
        ReloadAction::ReleaseClg
    } else if mode == "fas"@ {
        ReloadAction::Nothing
    } else {
        ReloadAction::ModeClg { release_others: rules }
    }
}

pub fn reload_action(
    special: bool,
    tuned_active: bool,
    in_cooldown: bool,
    mode: &str,
    rules: bool,
) -> (r: ReloadAction)
    ensures
        r == reload_spec(special, tuned_active, in_cooldown, mode@, rules),
{
    if special {
        if tuned_active {
            ReloadAction::TunedReload
        } else if !rules {
            ReloadAction::Nothing
        } else if in_cooldown {
            ReloadAction::CooldownClg
        } else {
            ReloadAction::StartSpecial
        }
    } else if str_eq(mode, "vector") {
        ReloadAction::ReleaseClg
    } else if str_eq(mode, "fas") {
        ReloadAction::Nothing
    } else {
        ReloadAction::ModeClg { release_others: rules }
    }
}

// ---------------------------------------------------------------------------
// [startup]
// ---------------------------------------------------------------------------

/// The mode the daemon starts in: the lab's global mode when set, else the
/// rules' global mode; a name without a CLG section (or none) gives
/// `default`.
pub open spec fn initial_mode_spec(lab: Option<Seq<char>>, rules_global: Seq<char>) -> Seq<char> {
    let m = match lab {
        Some(l) => l,
        None => rules_global,
    };
    if m.len() == 0 || !(m == "powersave"@ || m == "balance"@ || m == "performance"@ || m == "fast"@) {
        "default"@
    } else {
        m
    }
}

pub fn initial_mode(lab: Option<String>, rules_global: &str) -> (r: String)
    ensures
        r@ == initial_mode_spec(
            match lab {
                Some(l) => Some(l@),
                None => None,
            },
            rules_global@,
        ),
{
    let m: String = match lab {
        Some(l) => l,
        None => chars_to_string(str_to_chars(rules_global)),
    };
    let slot: Option<ModeSlot> = mode_slot(m.as_str());
    if m.as_str().unicode_len() == 0 || slot.is_none() {
        chars_to_string(str_to_chars("default"))
    } else {
        m
    }
}

/// The start-up repairs: every core brought online and a `performance`
/// governor left behind set back to `schedutil` — both only while
/// scheduling runs; while stopped the leftover governors are only reported.
pub struct StartCleanup {
    pub force_online: bool,
    pub clear_residue: bool,
    pub report_residue: bool,
}

pub fn startup_cleanup(halted: bool) -> (r: StartCleanup)
    ensures
        r.force_online == !halted,
        r.clear_residue == !halted,
        r.report_residue == halted,
{
    StartCleanup { force_online: !halted, clear_residue: !halted, report_residue: halted }
}

/// The frequency takeover at start-up (none while stopped): the fast lock
/// for vector, nothing for FAS (its events start it), else the mode's CLG.
#[derive(PartialEq, Eq, Structural, Clone, Copy)]
pub enum StartTakeover {
    Nothing,
    Fast,
    Clg,
}

pub fn startup_takeover(halted: bool, mode: &str) -> (r: StartTakeover)
    ensures
        r == if halted || mode@ == "fas"@ {
            StartTakeover::Nothing
        } else if mode@ == "vector"@ {
            StartTakeover::Fast
        } else {
            StartTakeover::Clg
        },
{
    if halted || str_eq(mode, "fas") {
        StartTakeover::Nothing
    } else if str_eq(mode, "vector") {
        StartTakeover::Fast
    } else {
        StartTakeover::Clg
    }
}

/// The mode scheduling resumes in: the monitor's live decision when it has
/// one, else the mode held when scheduling stopped.
pub fn resume_mode(live: &str, saved: &str) -> (r: String)
    ensures
        r@ == if live@.len() > 0 {
            live@
        } else {
            saved@
        },
{
    if live.unicode_len() > 0 {
        chars_to_string(str_to_chars(live))
    } else {
        chars_to_string(str_to_chars(saved))
    }
}

/// The thermal guard runs unless scheduling is stopped or an active FAS
/// engine handles temperature itself.
pub fn thermal_guard_runs(halted: bool, mode: &str, fas_active: bool) -> (r: bool)
    ensures
        r == (!halted && !(mode@ == "fas"@ && fas_active)),
{
    !halted && !(str_eq(mode, "fas") && fas_active)
}

// ---------------------------------------------------------------------------
// [timers]
// ---------------------------------------------------------------------------

/// What is left of a period started at `last` (0 once it has passed).
pub open spec fn remaining_spec(last: u64, period: u64, now: u64) -> int {
    let e: int = if now >= last {
        now - last
    } else {
        0
    };
    if e >= period {
        0
    } else {
        period - e
    }
}

pub fn remaining(last: u64, period: u64, now: u64) -> (r: u64)
    ensures
        r == remaining_spec(last, period, now),
{
    let e: u64 = if now >= last {
        now - last
    } else {
        0
    };
    if e >= period {
        0
    } else {
        period - e
    }
}

/// A period started at `last` is due.
pub fn due(last: u64, period: u64, now: u64) -> (r: bool)
    ensures
        r == (remaining_spec(last, period, now) == 0),
{
    remaining(last, period, now) == 0
}

/// How long the loop may block: until the nearest periodic task is due
/// (each given as `(last, period)`), at most `cap`, and no longer than the
/// fast lock's next rewrite when there is one.
pub fn loop_wait(tasks: &Vec<(u64, u64)>, now: u64, cap: u64, fast_next: Option<u64>) -> (r: u64)
    ensures
        r <= cap,
        forall|k: int| 0 <= k < tasks@.len() ==> r <= remaining_spec(#[trigger] tasks@[k].0, tasks@[k].1, now),
        fast_next matches Some(f) ==> r <= f,
        r == cap || (exists|k: int| 0 <= k < tasks@.len() && r == remaining_spec(#[trigger] tasks@[k].0, tasks@[k].1, now))
            || fast_next == Some(r),
{
    let mut w: u64 = cap;
    let mut i: usize = 0;
    while i < tasks.len()
        invariant
            i <= tasks@.len(),
            w <= cap,
            forall|k: int| 0 <= k < i ==> w <= remaining_spec(#[trigger] tasks@[k].0, tasks@[k].1, now),
            w == cap || exists|k: int| 0 <= k < i && w == remaining_spec(#[trigger] tasks@[k].0, tasks@[k].1, now),
        decreases tasks.len() - i,
    {
        let (last, period) = tasks[i];
        let rem = remaining(last, period, now);
        if rem < w {
            w = rem;
        }
        i += 1;
    }
    if let Some(f) = fast_next {
        if f < w {
            w = f;
        }
    }
    w
}


/// A change to any mode other than FAS (and not out of a running FAS, whose
/// exit is delayed) is entered: the screen-on takeover runs exactly when the
/// screen is on, lab mode or not, and the lab grouping is entered for a lab
/// mode and left for any other.
pub proof fn law_mode_change_takeover(
    old: Seq<char>,
    new: Seq<char>,
    fas_active: bool,
    fas_ready: bool,
    fas_cooldown: bool,
    screen_on: bool,
)
    requires
        old != new,
        new != "fas"@,
        !(old == "fas"@ && fas_active),
    ensures
        mode_switch_spec(old, new, fas_active, fas_ready, fas_cooldown, screen_on) matches ModeSwitch::Enter {
            leave_lab,
            takeover,
            enter_lab,
        } && takeover == screen_on && enter_lab == (new == "contingency"@ || new == "babel"@) && leave_lab
            == !enter_lab,
{
}

/// A change to the mode already held does nothing, whatever else holds.
pub proof fn law_same_mode_is_noop(m: Seq<char>, fas_active: bool, fas_ready: bool, fas_cooldown: bool, screen_on: bool)
    ensures
        mode_switch_spec(m, m, fas_active, fas_ready, fas_cooldown, screen_on) == ModeSwitch::Same,
{
}

/// A reload in any mode that is neither special, vector nor FAS (lab modes
/// included) gives the mode's CLG the new section; only a rules reload
/// releases special tuning and the fast lock first.
pub proof fn law_reload_reaches_clg(tuned_active: bool, in_cooldown: bool, mode: Seq<char>, rules: bool)
    requires
        mode != "vector"@,
        mode != "fas"@,
    ensures
        reload_spec(false, tuned_active, in_cooldown, mode, rules) == (ReloadAction::ModeClg {
            release_others: rules,
        }),
{
}

/// The start-up mode is always `default` or a mode with a CLG section; a
/// chosen name (the lab's, else the rules') that has a section is kept as
/// it is, and any other name gives `default`.
pub proof fn law_initial_mode(lab: Option<Seq<char>>, rules_global: Seq<char>)
    ensures
        ({
            let r = initial_mode_spec(lab, rules_global);
            let m = match lab {
                Some(l) => l,
                None => rules_global,
            };
            &&& (r == "default"@ || r == "powersave"@ || r == "balance"@ || r == "performance"@ || r
                == "fast"@)
            &&& (m == "powersave"@ || m == "balance"@ || m == "performance"@ || m == "fast"@) ==> r == m
            &&& !(m == "powersave"@ || m == "balance"@ || m == "performance"@ || m == "fast"@) ==> r
                == "default"@
        }),
{
    reveal_strlit("powersave");
    reveal_strlit("balance");
    reveal_strlit("performance");
    reveal_strlit("fast");
}

} // verus!
