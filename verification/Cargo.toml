[package]
name = "mizer_core"
version = "0.1.0"
edition = "2021"
publish = false

[dependencies]
itertools = "*"
pinboard = "*"
parking_lot = "*"
sacn = "*"
anyhow = "*"
