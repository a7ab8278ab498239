[package]
name = "magisk"
version = "0.1.0"
edition = "2021"
publish = false

[dependencies]
argh = "=0.1.19"
nix = { version = "=0.30.1", features = ["fs", "mount", "poll"] }
num-traits = "=0.2.19"
