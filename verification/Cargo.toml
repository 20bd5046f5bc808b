[package]
name = "wash_cycle_core"
version = "0.1.0"
edition = "2021"
publish = false

[dependencies]
ulid = "*"
