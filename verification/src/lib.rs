//! Verified logic of a family of named-data radio nodes: airtime arithmetic, name filters,
//! on-air framing, the host serial protocols, and the decisions each node makes between two
//! operations on its radio.
//!
//! Every function here is a pure computation over plain values. Pins, buses, sockets and clocks
//! belong to the program around the library, which hands in what the hardware said and carries out
//! what the library decided.

pub mod airtime;
pub mod bytes;
pub mod flrc_link;
pub mod gcs;
pub mod lab;
pub mod lora_node;
pub mod lr_node;
pub mod ndr_ctl;
pub mod regs;
pub mod serial;
pub mod text;
pub mod tier0;
pub mod wifi;
