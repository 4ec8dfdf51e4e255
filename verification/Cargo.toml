[package]
name = "etcherus"
version = "0.1.0"
edition = "2021"
publish = false

[dependencies]
anyhow = "1"
bytesize = "=1.3.3"
iced = { version = "=0.12.1", default-features = false }
regex = "1"
rfd = "=0.14.1"
serde = { version = "1", features = ["derive"] }
tokio = { version = "1", features = ["process", "time", "rt-multi-thread", "macros"] }
