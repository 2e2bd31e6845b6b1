[package]
name = "artichoke_backend"
version = "0.1.0"
edition = "2021"
publish = false

[dependencies]
bstr = "1"
once_cell = "1"
tz-rs = "0.6"
tzdb = "0.5"

[dev-dependencies]
regex = "1"
