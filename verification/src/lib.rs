//! Orchestration of package installs onto connected devices: the device
//! registry, the shared progress table, and the per-device worker that
//! drives one install from start to its terminal status.

pub mod command;
pub mod display;
pub mod error;
pub mod orchestrator;
pub mod progress;
pub mod registry;
pub mod run;
pub mod state;
pub mod worker;
