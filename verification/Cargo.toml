[package]
name = "wrapper"
version = "0.1.0"
edition = "2021"
publish = false

[dependencies]
anyhow = "1"
dirs = "*"
enable-ansi-support = "*"
paris = { version = "*", features = ["macros"] }
serde_json = "1"
snap = "1"

[dev-dependencies]
binrw = "*"
