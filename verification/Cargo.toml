[package]
name = "nixon"
version = "0.1.0"
edition = "2021"
publish = false

[dependencies]
anyhow = "1"
nix = { version = "*", features = ["fs", "mount", "process", "sched", "user"] }
tempfile = "3"
