//! Decision logic of the ChiRi CPU scheduling daemon.
pub mod text;
pub mod cpulist;
pub mod common;
pub mod lists;
pub mod meta;
pub mod down;
pub mod sysfs;
pub mod governor;
pub mod fast;
pub mod gpu;
pub mod core_ctl;
pub mod affinity;
pub mod config;
pub mod modes;
pub mod limit;
pub mod tweaks;
pub mod scene;
pub mod layout;
pub mod events;
