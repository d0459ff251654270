[package]
name = "impulse_core"
version = "0.1.0"
edition = "2021"
publish = false

[dependencies]
anyhow = "1"
backtrace = "0.3"
crossbeam = "0.8"
futures = "0.3"
