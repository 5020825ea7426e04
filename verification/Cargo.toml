[package]
name = "devs"
version = "0.1.0"
edition = "2021"
publish = false

[dependencies]
log = "0.4"
mint = "0.5"
rand = "0.8"
