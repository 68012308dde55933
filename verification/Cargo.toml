[package]
name = "fvr"
version = "0.1.0"
edition = "2021"
publish = false

[dependencies]
ahash = "0.8"
itoa = "1.0"
owo-colors = "4"
ryu = "1.0"
supports-color = "3"
thiserror = "2"
time = { version = "0.3", features = ["formatting", "local-offset", "macros"] }
uzers = "0.12"
