[package]
name = "rust_mux"
version = "0.1.0"
edition = "2021"
publish = false

[dependencies]
crossterm = "0.29"
libc = "0.2"
nix = { version = "0.30", features = ["fs", "process", "signal", "term"] }
polling = "3"
scopeguard = "1"
vt100 = "0.16"
