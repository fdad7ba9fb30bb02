[package]
name = "modbus-mapper"
version = "0.1.0"
edition = "2021"
publish = false

[dependencies]
tokio-modbus = { version = "0.14", default-features = false, features = ["tcp"] }
async-trait = "0.1"
thiserror = "1"
darling = "0.20"
syn = { version = "2", features = ["full"] }
quote = "1"
proc-macro2 = "1"
