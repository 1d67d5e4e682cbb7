[package]
name = "ironsaga"
version = "0.2.0"
edition = "2021"
publish = false

[dependencies]
anyhow = "1"
async-trait = "0.1"
heck = "0.5"
proc-macro2 = "1"
quote = "1"
syn = { version = "2", features = ["full"] }
