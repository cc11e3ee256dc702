[package]
name = "report"
version = "0.1.0"
edition = "2021"
publish = false

[dependencies]
console = "0.15"
syn = { version = "2", features = ["full"] }
proc-macro2 = "1"
quote = "1"
