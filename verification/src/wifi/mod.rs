//! The Wi-Fi nodes: raw 802.11 capture and injection behind one serial protocol.

pub mod advq;
pub mod clock;
pub mod deframe;
pub mod esp32c5;
pub mod host_read;
pub mod laws;
pub mod proto;
pub mod ring;
pub mod rtl8720;
