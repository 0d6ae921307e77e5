[package]
name = "world_freezer"
version = "0.1.0"
edition = "2021"
publish = false

[dependencies]
zstd = "*"
anvil-region = "*"
anyhow = "*"
clap = { version = "*", features = ["derive"] }
humansize = "*"
tracing = "*"
tracing-panic = "*"
tracing-subscriber = "*"
named-binary-tag = "*"
