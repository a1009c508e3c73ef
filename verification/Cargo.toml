[package]
name = "jsonrpsee-ts"
version = "0.1.0"
edition = "2021"
publish = false

[dependencies]
ts-rs = "*"
syn = { version = "2", features = ["full", "extra-traits"] }
quote = "1"
proc-macro2 = "1"
