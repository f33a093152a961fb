[package]
name = "main_dispatch"
version = "0.1.0"
edition = "2021"
publish = false

[dependencies]
crossbeam-channel = "*"
parking_lot = "*"
