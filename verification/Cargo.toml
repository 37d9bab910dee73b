[package]
name = "cosca"
version = "0.1.0"
edition = "2021"
publish = false

[dependencies]
event-listener = "*"
libc = "*"
log = "*"
nix = { version = "*", features = ["process", "signal"] }
rustix = { version = "*", features = ["event", "fs", "net", "process"] }
