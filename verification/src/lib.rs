//! The rules of a tray monitor for processor, memory, disk and network.
//!
//! The program around this library reads the system and talks to its windows, its menu and its
//! serial port. What it reads comes in here as plain values, and what is to be shown, sent or done
//! next comes out. Floating-point figures come in as [`reading::Reading`]s, which keep their bits
//! and their order; sums and quotients of them are formed outside.
pub mod canvas;
pub mod counters;
pub mod icon;
pub mod metrics;
pub mod monitor;
pub mod overlay;
pub mod panel;
pub mod profile;
pub mod ramp;
pub mod reading;
pub mod rolling;
pub mod serial;
pub mod speed;
pub mod text;
pub mod update;
