//! Status-bar building blocks: styled text blocks produced by independent
//! metric sources (power, CPU load, audio volume, media playback, wireless
//! headset charge, wall clock), a deterministic formatter that joins the
//! blocks that are present into one line, and the state machine of a
//! self-healing poller for the headset's bus-discovered battery.

pub mod bar;
pub mod color;
pub mod cpu;
pub mod component;
pub mod datetime;
pub mod headset_battery;
pub mod text;
pub mod widget;
