//! Control logic for a battery/vehicle tracking and anti-theft device built
//! around a cellular+GNSS radio module.
//!
//! The crate holds the three verified subsystems the device is made of:
//! a command/response codec for the AT protocol that drives the radio module,
//! a compact text codec used to exchange status and remote commands over SMS,
//! and the orchestrator that owns configuration and device status and
//! implements the parking/theft/battery rules.
//!
//! Serial I/O, the task scheduler and the hardware shims live outside this
//! crate; everything here is pure computation on plain values.

pub mod at;
pub mod battery;
pub mod call;
pub mod datetime;
pub mod gps;
pub mod gsm;
pub mod hexstr;
pub mod location;
pub mod network;
pub mod poro;
pub mod service;
pub mod sms;
pub mod text;
pub mod urc;
pub mod utils;
