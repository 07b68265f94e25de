[package]
name = "rustmerge"
version = "0.1.0"
edition = "2021"
publish = false

[dependencies]
anyhow = "1"
proc-macro2 = "1"
quote = "1"
regex = "1"
syn = { version = "2", features = ["full"] }
toml = "0.8"

[dev-dependencies]
tempfile = "3"
