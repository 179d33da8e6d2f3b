[package]
name = "ndn_radio"
version = "0.1.0"
edition = "2021"
publish = false

[dependencies]
lr2021 = "*"
lora-phy = "3.0.1"
embassy-time = "*"
embassy-futures = "*"
embassy-sync = "*"
embedded-hal = "1"
embedded-hal-async = "1"
embedded-io-async = "*"
libc = "0.2"
static_cell = "2"
