[package]
name = "chainbridge"
version = "0.1.0"
edition = "2021"
publish = false

[dependencies]
sp-core = { version = "*", default-features = false }
sp-runtime = { version = "*", default-features = false }
parity-scale-codec = { version = "*", default-features = false, features = ["derive"] }
