[package]
name = "tc_calc_fuzzer"
version = "0.1.0"
edition = "2021"
publish = false

[dependencies]
libafl = { version = "=0.15.4", features = ["tui_monitor"] }
libafl_bolts = "=0.15.4"
libafl_targets = "=0.15.4"
libc = "=0.2.191"
serde = { version = "=1.0.229", features = ["derive"] }
