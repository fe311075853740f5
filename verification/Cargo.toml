[package]
name = "rustlerpdf"
version = "0.1.0"
edition = "2021"
publish = false

[dependencies]
lopdf = "=0.32.0"
rustler = "=0.33.0"
