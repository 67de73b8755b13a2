[package]
name = "record_core"
version = "0.1.0"
edition = "2021"
publish = false

[dependencies]
fxhash = "0.2"
linked-hash-map = "0.5"
