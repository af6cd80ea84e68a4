//! Firmware logic of the sensor board: the decisions, formats and rules of its
//! USB console, its configuration in flash, and its Thread radio on CPU2.
//!
//! Whatever touches the hardware is left to the caller. A conversation with it
//! is a state machine whose steps say what to do next.

pub mod bounded;
pub mod bytes;
pub mod config;
pub mod cpu2;
pub mod dfu;
pub mod flash;
pub mod housekeeping;
pub mod ip6;
pub mod join;
pub mod laws;
pub mod ot;
pub mod ot_command;
pub mod ot_lines;
pub mod ot_notify;
pub mod ot_text;
pub mod packets;
pub mod range;
pub mod reports;
pub mod results;
pub mod spelling;
pub mod text;
pub mod traces;
pub mod usb_device;
pub mod words;
pub mod wpan;
pub mod wpan_lines;
pub mod wpan_text;
