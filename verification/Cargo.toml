[package]
name = "hex_vm"
version = "0.1.0"
edition = "2021"
publish = false

[dependencies]
string-interner = "*"
tracing-subscriber = { version = "*", features = ["env-filter"] }
