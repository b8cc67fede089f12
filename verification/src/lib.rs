//! Detects hot-plug connection and disconnection of configured USB keyboards
//! and decides when the active keyboard layout must change.
//!
//! The crate holds the event-driven device-presence state machine: matching
//! observed devices against a configured catalog, tracking which configured
//! keyboards are currently present, and emitting a layout command exactly on
//! presence transitions. Listening to the USB subsystem and invoking the
//! layout-setting utility are left to the surrounding program, which feeds
//! plain events and enumeration snapshots into the machine.

pub mod catalog;
pub mod device;
pub mod presence;
pub mod controller;
pub mod laws;
