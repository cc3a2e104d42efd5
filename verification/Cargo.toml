[package]
name = "bsc_scan"
version = "0.1.0"
edition = "2021"
publish = false

[dependencies]
alloy-consensus = "*"
alloy-evm = "*"
alloy-primitives = "*"
clap = { version = "*", features = ["derive"] }
eyre = "*"
revm-inspectors = "*"
thiserror = "*"
tracing = "*"
tracing-subscriber = { version = "*", features = ["env-filter"] }
