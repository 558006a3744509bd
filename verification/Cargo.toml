[package]
name = "statig"
version = "0.1.0"
edition = "2021"
publish = false

[dependencies]
proc-macro-error = "1"
proc-macro2 = "1"
quote = "1"
syn = { version = "1", features = ["full", "extra-traits"] }
