//! The integer and string sections of the tuning configuration, their
//! defaults, and the clamps applied when it is loaded.
use vstd::prelude::*;
use crate::text::{chars_to_string, str_eq, str_to_chars};

verus! {

/// The global section of meta.yaml.
pub struct Meta {
    pub loglevel: String,
    pub language: String,
    pub dev_record: bool,
    pub fas_enabled: bool,
    pub scenemode_enabled: bool,
}

impl Default for Meta {
    /// Every field empty or off (the value of a section that is missing as
    /// a whole; missing fields of a present section take the serde defaults
    /// `default_loglevel` / `default_language` / on).
    fn default() -> (r: Meta)
        ensures
            r.loglevel@ == Seq::<char>::empty(),
            r.language@ == Seq::<char>::empty(),
            !r.dev_record,
            !r.fas_enabled,
            !r.scenemode_enabled,
    {
        Meta {
            loglevel: String::new(),
            language: String::new(),
            dev_record: false,
            fas_enabled: false,
            scenemode_enabled: false,
        }
    }
}

/// The log level of a meta section that does not set one.
pub fn default_loglevel() -> (r: String)
    ensures
        r@ == "INFO"@,
{
    chars_to_string(str_to_chars("INFO"))
}

/// The log language of a meta section that does not set one.
pub fn default_language() -> (r: String)
    ensures
        r@ == "en"@,
{
    chars_to_string(str_to_chars("en"))
}

/// Ticks a frequency drop waits by default.
pub fn d_clg_down_rate() -> (r: u32)
    ensures
        r == 3,
{
    3
}

/// Ticks a frequency rise waits by default.
pub fn d_clg_up_rate() -> (r: u32)
    ensures
        r == 2,
{
    2
}

/// Default touch-boost hold (ms).
pub fn d_clg_touch_boost_ms() -> (r: u64)
    ensures
        r == 400,
{
    400
}

/// Default number of frequency steps a touch raises.
pub fn d_clg_touch_boost_tiers() -> (r: u32)
    ensures
        r == 1,
{
    1
}

/// Default hold (ms) before the special-tuning cap is lowered.
pub fn d_ak_down_hold_ms() -> (r: u64)
    ensures
        r == 100,
{
    100
}

/// The touch-boost settings after the load-time clamps: the hold is kept
/// within 1..=1000 ms (0 when touch boost is off) and at most 8 steps.
pub open spec fn touch_boost_spec(enabled: bool, ms: u64, tiers: u32) -> (u64, u32) {
    (
        if !enabled {
            0
        } else if ms < 1 {
            1
        } else if ms > 1000 {
            1000
        } else {
            ms
        },
        if tiers > 8 {
            8
        } else {
            tiers
        },
    )
}

/// The touch-boost hold and step count a section ends up with.
pub fn normalize_touch_boost(enabled: bool, ms: u64, tiers: u32) -> (r: (u64, u32))
    ensures
        r == touch_boost_spec(enabled, ms, tiers),
{
    let mut m = if ms < 1 {
        1
    } else if ms > 1000 {
        1000
    } else {
        ms
    };
    let t = if tiers > 8 {
        8
    } else {
        tiers
    };
    if !enabled {
        m = 0;
    }
    (m, t)
}

/// The special-tuning down hold after the load-time clamp: at most 5 s.
pub fn normalize_down_hold(ms: u64) -> (r: u64)
    ensures
        r == if ms > 5000 {
            5000
        } else {
            ms
        },
{
    if ms > 5000 {
        5000
    } else {
        ms
    }
}

/// The block-queue settings (`IO_Settings`), written as given.
pub struct IOSettings {
    /// I/O scheduler name; empty: not written.
    pub scheduler: String,
    pub read_ahead_kb: String,
    pub nomerges: String,
    pub iostats: String,
}

pub fn default_read_ahead_kb() -> (r: String)
    ensures
        r@ == "128"@,
{
    chars_to_string(str_to_chars("128"))
}

pub fn default_nomerges() -> (r: String)
    ensures
        r@ == "2"@,
{
    chars_to_string(str_to_chars("2"))
}

pub fn default_iostats() -> (r: String)
    ensures
        r@ == "0"@,
{
    chars_to_string(str_to_chars("0"))
}

impl Default for IOSettings {
    fn default() -> (r: IOSettings)
        ensures
            r.scheduler@ == Seq::<char>::empty(),
            r.read_ahead_kb@ == "128"@,
            r.nomerges@ == "2"@,
            r.iostats@ == "0"@,
    {
        IOSettings {
            scheduler: String::new(),
            read_ahead_kb: default_read_ahead_kb(),
            nomerges: default_nomerges(),
            iostats: default_iostats(),
        }
    }
}

/// The cpuidle section.
pub struct CpuIdle {
    pub current_governor: String,
}

impl Default for CpuIdle {
    fn default() -> (r: CpuIdle)
        ensures
            r.current_governor@ == Seq::<char>::empty(),
    {
        CpuIdle { current_governor: String::new() }
    }
}

/// The feature switches section.
pub struct FunctionToggles {
    pub cpu_idle_scaling_governor: bool,
    pub io_optimization: bool,
}

impl Default for FunctionToggles {
    fn default() -> (r: FunctionToggles)
        ensures
            !r.cpu_idle_scaling_governor,
            !r.io_optimization,
    {
        FunctionToggles { cpu_idle_scaling_governor: false, io_optimization: false }
    }
}

/// The affinity section.
pub struct AffinityConfig {
    pub enabled: bool,
    /// top-app `cpu.uclamp.min` in boost modes (percent; 0: off).
    pub top_app_uclamp_min_pct: u32,
    /// top-app `cpu.uclamp.max` in boost modes (percent; 0: off).
    pub top_app_uclamp_max_pct: u32,
    pub pin_foreground_threads: bool,
}

pub fn d_aff_uclamp_min() -> (r: u32)
    ensures
        r == 0,
{
    0
}

pub fn d_aff_uclamp_max() -> (r: u32)
    ensures
        r == 0,
{
    0
}

impl Default for AffinityConfig {
    fn default() -> (r: AffinityConfig)
        ensures
            r.enabled,
            r.top_app_uclamp_min_pct == 0,
            r.top_app_uclamp_max_pct == 0,
            r.pin_foreground_threads,
    {
        AffinityConfig {
            enabled: true,
            top_app_uclamp_min_pct: d_aff_uclamp_min(),
            top_app_uclamp_max_pct: d_aff_uclamp_max(),
            pin_foreground_threads: true,
        }
    }
}

impl AffinityConfig {
    /// Keeps both uclamp percentages within 0..=100.
    pub fn normalize(&mut self)
        ensures
            final(self).top_app_uclamp_min_pct == if old(self).top_app_uclamp_min_pct > 100 {
                100
            } else {
                old(self).top_app_uclamp_min_pct
            },
            final(self).top_app_uclamp_max_pct == if old(self).top_app_uclamp_max_pct > 100 {
                100
            } else {
                old(self).top_app_uclamp_max_pct
            },
            final(self).enabled == old(self).enabled,
            final(self).pin_foreground_threads == old(self).pin_foreground_threads,
    {
        if self.top_app_uclamp_min_pct > 100 {
            self.top_app_uclamp_min_pct = 100;
        }
        if self.top_app_uclamp_max_pct > 100 {
            self.top_app_uclamp_max_pct = 100;
        }
    }
}

/// The core_ctl section.
pub struct CoreCtlConfig {
    pub enabled: bool,
    /// Take the prime cluster offline in scene mode.
    pub scenemode_offline: bool,
}

impl Default for CoreCtlConfig {
    fn default() -> (r: CoreCtlConfig)
        ensures
            r.enabled,
            r.scenemode_offline,
    {
        CoreCtlConfig { enabled: true, scenemode_offline: true }
    }
}

/// Seconds of screen-off before scene mode, by default.
pub fn default_scene_mode_delay_secs() -> (r: u64)
    ensures
        r == 300,
{
    300
}

/// The CLG sections a mode name selects.
#[derive(PartialEq, Eq, Structural, Clone, Copy)]
pub enum ModeSlot {
    Powersave,
    Balance,
    Performance,
    Fast,
}

/// The section of a mode: powersave, balance, performance and fast have
/// one; any other name (special tunings included) has none.
pub fn mode_slot(mode_name: &str) -> (r: Option<ModeSlot>)
    ensures
        r == if mode_name@ == "powersave"@ {
            Some(ModeSlot::Powersave)
        } else if mode_name@ == "balance"@ {
            Some(ModeSlot::Balance)
        } else if mode_name@ == "performance"@ {
            Some(ModeSlot::Performance)
        } else if mode_name@ == "fast"@ {
            Some(ModeSlot::Fast)
        } else {
            None
        },
{
    if str_eq(mode_name, "powersave") {
        Some(ModeSlot::Powersave)
    } else if str_eq(mode_name, "balance") {
        Some(ModeSlot::Balance)
    } else if str_eq(mode_name, "performance") {
        Some(ModeSlot::Performance)
    } else if str_eq(mode_name, "fast") {
        Some(ModeSlot::Fast)
    } else {
        None
    }
}

/// Normalizing twice changes nothing more than normalizing once.
pub proof fn law_touch_boost_idempotent(enabled: bool, ms: u64, tiers: u32)
    ensures
        ({
            let (m, t) = touch_boost_spec(enabled, ms, tiers);
            enabled ==> touch_boost_spec(enabled, m, t) == (m, t)
        }),
{
}

} // verus!
