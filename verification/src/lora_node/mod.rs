//! The SX1276 node: what it does with each host command, each radio event and each timer.

pub mod command;
pub mod csma;
pub mod fire;
pub mod hop;
pub mod hop_laws;
pub mod laws;
pub mod lbt;
pub mod line_laws;
pub mod node;
pub mod opcode;
pub mod outcome;
pub mod params;
pub mod progress_laws;
pub mod report;
pub mod sched;
pub mod settings_laws;
pub mod traffic_laws;
