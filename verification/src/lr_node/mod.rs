//! The multi-modem node: a radio that moves between LoRa, FLRC and LR-FHSS at run time.

pub mod bridge;
pub mod clock;
pub mod command_laws;
pub mod flow;
pub mod info;
pub mod irq;
pub mod laws;
pub mod phy;
pub mod radio_laws;
pub mod sense;
