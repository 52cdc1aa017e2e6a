//! Verified logic of the Conductor command-line tools.
#![allow(unused_imports)]

pub mod text;
pub mod json;
pub mod ctl_events;
pub mod ipc;
pub mod ctl_daemon;
pub mod sign;
pub mod sign_args;
pub mod rotation;
pub mod service;
pub mod ctl_audit;
pub mod ctl_profile;
pub mod styled;
pub mod ctl_diag;
pub mod menubar;
pub mod state_dump;
pub mod skills;
pub mod led;
pub mod midi;
pub mod simulator;
pub mod ctl_playback;
pub mod ctl_devices;
pub mod validation_report;
