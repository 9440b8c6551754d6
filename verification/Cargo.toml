[package]
name = "quinn_congestion"
version = "0.1.0"
edition = "2021"
publish = false

[dependencies]
enum_dispatch = "0.3"
