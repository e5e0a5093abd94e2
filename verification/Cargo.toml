[package]
name = "maki_sandbox"
version = "0.1.0"
edition = "2021"
publish = false

[dependencies]
serde_json = { version = "1", features = ["preserve_order"] }
nix = { version = "0.29", features = ["fs", "poll", "process", "signal", "user", "sched", "mount"] }
mlua = { version = "0.10", features = ["lua54", "vendored", "async", "send"] }
crossterm = "0.28"
ratatui = "0.29"
clap = { version = "4", features = ["derive"] }
color-eyre = "0.6"
flume = "0.11"
smol = "2"
tracing = "0.1"
include_dir = "0.7"
