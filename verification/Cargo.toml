[package]
name = "zkm_core"
version = "0.1.0"
edition = "2021"
publish = false

[dependencies]
anyhow = "1.0"
elf = "0.7.4"
serde = { version = "1.0", features = ["derive"] }
