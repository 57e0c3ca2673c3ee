[package]
name = "multiplex"
version = "0.1.0"
edition = "2021"
publish = false

[dependencies]
async-std = "1"
futures = "0.3"
pin-project = "1"
rand = "0.7"
