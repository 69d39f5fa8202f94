[package]
name = "netfax"
version = "0.1.0"
edition = "2021"
publish = false

[dependencies]
bimap = "0.6"
bincode = "1"
crossbeam-channel = "0.5"
log = "0.4"
serde = "1"
snap = "0.2"
