//! The screen-off scene mode: entered after the screen stayed off long
//! enough (and the standby cores are not saturated, unless the screen has
//! been off very long), left when switched off, when the screen comes on, or
//! after ten seconds of saturation (with a five-minute cooldown).
use vstd::prelude::*;

verus! {

/// Shortest screen-off time before scene mode (s).
pub const SCENE_MIN_DELAY_SECS: u64 = 60;

/// Saturation that ends scene mode (ms).
pub const SCENEMODE_SAT_MS: u64 = 10000;

/// Cooldown after a saturation exit (ms).
pub const SCENEMODE_COOLDOWN_MS: u64 = 300000;

/// What the entry check of a load tick decided.
#[derive(PartialEq, Eq, Structural, Clone, Copy)]
pub enum SceneEntry {
    /// No entry this tick.
    NotYet,
    /// The delay passed but the standby cores are saturated: stay out
    /// (`log`: the first such tick, to be logged once).
    Hold { log: bool },
    /// Enter scene mode.
    Enter,
}

/// What a load tick does to scene mode, in order.
pub struct SceneTick {
    /// Scene mode was switched off while active: it is left.
    pub exit_disabled: bool,
    pub entry: SceneEntry,
    /// Saturation lasted long enough: scene mode is left, cooldown starts.
    pub exit_saturated: bool,
}

/// The screen and scene-mode state: when the screen went off, whether
/// scene mode is active, the one-time hold log, saturation and cooldown.
pub struct SceneState {
    pub screen_on: bool,
    pub screen_off_at_ms: Option<u64>,
    pub active: bool,
    pub hold_logged: bool,
    pub sat_since_ms: Option<u64>,
    pub cooldown_until_ms: Option<u64>,
}

/// Whole seconds from `since` to `now` (0 when `now` is earlier).
pub open spec fn elapsed_secs(now_ms: u64, since_ms: u64) -> int {
    if now_ms >= since_ms {
        (now_ms - since_ms) / 1000
    } else {
        0
    }
}

pub open spec fn elapsed(now_ms: u64, since_ms: u64) -> int {
    if now_ms >= since_ms {
        now_ms - since_ms
    } else {
        0
    }
}

/// The entry part of a tick, from the state after the disabled-exit check.
pub open spec fn entry_spec(
    s: SceneState,
    enabled: bool,
    blocked: bool,
    delay_secs: u64,
    saturated: bool,
    now_ms: u64,
) -> (SceneEntry, bool, bool) {
    // (entry, active after, hold_logged after)
    let cooldown_ok = match s.cooldown_until_ms {
        Some(u) => now_ms >= u,
        None => true,
    };
    if !s.screen_on && enabled && !s.active && cooldown_ok && !blocked {
        match s.screen_off_at_ms {
            Some(off) => {
                let e = elapsed_secs(now_ms, off);
                let delay = if delay_secs > SCENE_MIN_DELAY_SECS {
                    delay_secs as int
                } else {
                    SCENE_MIN_DELAY_SECS as int
                };
                if e >= SCENE_MIN_DELAY_SECS && e >= delay {
                    let long_off = e >= (if delay * 4 > u64::MAX {
                        u64::MAX as int
                    } else {
                        delay * 4
                    });
                    if saturated && !long_off {
                        (SceneEntry::Hold { log: !s.hold_logged }, false, true)
                    } else {
                        (SceneEntry::Enter, true, false)
                    }
                } else {
                    (SceneEntry::NotYet, s.active, s.hold_logged)
                }
            },
            None => (SceneEntry::NotYet, s.active, s.hold_logged),
        }
    } else {
        (SceneEntry::NotYet, s.active, s.hold_logged)
    }
}

impl SceneState {
    /// Screen on, nothing pending.
    pub fn new() -> (r: SceneState)
        ensures
            r.screen_on,
            r.screen_off_at_ms is None,
            !r.active,
            !r.hold_logged,
            r.sat_since_ms is None,
            r.cooldown_until_ms is None,
    {
        SceneState {
            screen_on: true,
            screen_off_at_ms: None,
            active: false,
            hold_logged: false,
            sat_since_ms: None,
            cooldown_until_ms: None,
        }
    }

    /// A screen event (reported twice by two sources at times): a repeat of
    /// the current state changes nothing; turning off starts the off clock,
    /// turning on clears it; either way scene mode is left.
    pub fn on_screen_change(&mut self, screen_on: bool, now_ms: u64) -> (changed: bool)
        ensures
            changed == (screen_on != old(self).screen_on),
            !changed ==> *final(self) == *old(self),
            changed ==> final(self).screen_on == screen_on && !final(self).active
                && final(self).screen_off_at_ms == (if screen_on {
                None
            } else {
                Some(now_ms)
            }) && final(self).hold_logged == (if screen_on {
                false
            } else {
                old(self).hold_logged
            }) && final(self).sat_since_ms == old(self).sat_since_ms && final(self).cooldown_until_ms
                == old(self).cooldown_until_ms,
    {
        if screen_on == self.screen_on {
            return false;
        }
        self.screen_on = screen_on;
        self.active = false;
        if screen_on {
            self.screen_off_at_ms = None;
            self.hold_logged = false;
        } else {
            self.screen_off_at_ms = Some(now_ms);
        }
        true
    }

    /// One load tick of scene mode (`enabled`: the scene-mode switch;
    /// `blocked`: a special mode or a FAS instance keeps scene mode out;
    /// `saturated`: the standby cores' highest load reached the saturation
    /// level): first the exit when switched off, then the entry check, then
    /// the saturation exit.
    pub fn tick(
        &mut self,
        enabled: bool,
        blocked: bool,
        delay_secs: u64,
        saturated: bool,
        now_ms: u64,
    ) -> (r: SceneTick)
        ensures
            r.exit_disabled == (old(self).active && !enabled),
            ({
                let s1 = SceneState {
                    active: if r.exit_disabled {
                        false
                    } else {
                        old(self).active
                    },
                    hold_logged: if r.exit_disabled {
                        false
                    } else {
                        old(self).hold_logged
                    },
                    ..*old(self)
                };
                let (e, a2, h2) = entry_spec(s1, enabled, blocked, delay_secs, saturated, now_ms);
                &&& r.entry == e
                &&& if a2 && !s1.screen_on && saturated {
                    match s1.sat_since_ms {
                        Some(since) => if elapsed(now_ms, since) >= SCENEMODE_SAT_MS {
                            &&& r.exit_saturated
                            &&& !final(self).active
                            &&& !final(self).hold_logged
                            &&& final(self).sat_since_ms is None
                            &&& final(self).cooldown_until_ms == Some(
                                (if now_ms as int + SCENEMODE_COOLDOWN_MS > u64::MAX {
                                    u64::MAX as int
                                } else {
                                    now_ms + SCENEMODE_COOLDOWN_MS
                                }) as u64,
                            )
                        } else {
                            &&& !r.exit_saturated
                            &&& final(self).active == a2
                            &&& final(self).hold_logged == h2
                            &&& final(self).sat_since_ms == s1.sat_since_ms
                            &&& final(self).cooldown_until_ms == s1.cooldown_until_ms
                        },
                        None => {
                            &&& !r.exit_saturated
                            &&& final(self).active == a2
                            &&& final(self).hold_logged == h2
                            &&& final(self).sat_since_ms == Some(now_ms)
                            &&& final(self).cooldown_until_ms == s1.cooldown_until_ms
                        },
                    }
                } else {
                    &&& !r.exit_saturated
                    &&& final(self).active == a2
                    &&& final(self).hold_logged == h2
                    &&& final(self).sat_since_ms == if a2 && !s1.screen_on {
                        None
                    } else {
                        s1.sat_since_ms
                    }
                    &&& final(self).cooldown_until_ms == s1.cooldown_until_ms
                }
            }),
            final(self).screen_on == old(self).screen_on,
            final(self).screen_off_at_ms == old(self).screen_off_at_ms,
    {
        let mut exit_disabled = false;
        if self.active && !enabled {
            self.active = false;
            self.hold_logged = false;
            exit_disabled = true;
        }
        let mut entry = SceneEntry::NotYet;
        let cooldown_ok = match self.cooldown_until_ms {
            Some(u) => now_ms >= u,
            None => true,
        };
        if !self.screen_on && enabled && !self.active && cooldown_ok && !blocked {
            match self.screen_off_at_ms {
                Some(off) => {
                    let e = now_ms.saturating_sub(off) / 1000;
                    let delay = if delay_secs > SCENE_MIN_DELAY_SECS {
                        delay_secs
                    } else {
                        SCENE_MIN_DELAY_SECS
                    };
                    if e >= SCENE_MIN_DELAY_SECS && e >= delay {
                        let d4 = if delay > u64::MAX / 4 {
                            u64::MAX
                        } else {
                            delay * 4
                        };
                        let long_off = e >= d4;
                        if saturated && !long_off {
                            entry = SceneEntry::Hold { log: !self.hold_logged };
                            self.hold_logged = true;
                        } else {
                            self.hold_logged = false;
                            self.active = true;
                            entry = SceneEntry::Enter;
                        }
                    }
                },
                None => {},
            }
        }
        let mut exit_saturated = false;
        if self.active && !self.screen_on {
            if saturated {
                let sustained = match self.sat_since_ms {
                    Some(since) => now_ms.saturating_sub(since) >= SCENEMODE_SAT_MS,
                    None => {
                        self.sat_since_ms = Some(now_ms);
                        false
                    },
                };
                if sustained {
                    self.sat_since_ms = None;
                    self.active = false;
                    self.hold_logged = false;
                    self.cooldown_until_ms = Some(now_ms.saturating_add(SCENEMODE_COOLDOWN_MS));
                    exit_saturated = true;
                }
            } else {
                self.sat_since_ms = None;
            }
        }
        SceneTick { exit_disabled, entry, exit_saturated }
    }
}

/// A saturation exit keeps scene mode out for the cooldown: a tick within
/// five minutes of it never enters, whatever the load.
pub proof fn law_cooldown_blocks_entry(
    s: SceneState,
    enabled: bool,
    blocked: bool,
    delay_secs: u64,
    saturated: bool,
    now_ms: u64,
)
    requires
        s.cooldown_until_ms matches Some(u) && now_ms < u,
    ensures
        entry_spec(s, enabled, blocked, delay_secs, saturated, now_ms).0 == SceneEntry::NotYet,
{
}

/// Scene mode is never entered before the screen has been off for a
/// minute, whatever the configured delay.
pub proof fn law_minimum_delay(
    s: SceneState,
    enabled: bool,
    blocked: bool,
    delay_secs: u64,
    saturated: bool,
    now_ms: u64,
)
    requires
        s.screen_off_at_ms matches Some(off) && elapsed_secs(now_ms, off) < SCENE_MIN_DELAY_SECS,
    ensures
        entry_spec(s, enabled, blocked, delay_secs, saturated, now_ms).0 != SceneEntry::Enter,
{
}

} // verus!
