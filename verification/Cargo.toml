[package]
name = "sysmon"
version = "0.1.0"
edition = "2021"
publish = false

[dependencies]
mlua = { version = "0.9", features = ["lua54", "vendored"] }
nvml-wrapper = "0.10"
sysinfo = "0.30"
ratatui = "0.26"
crossterm = "0.27"
chrono = "0.4"
tokio = { version = "1", features = ["macros", "rt-multi-thread"] }
