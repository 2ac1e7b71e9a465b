[package]
name = "rom_pipeline"
version = "0.1.0"
edition = "2021"
publish = false

[dependencies]
sha2 = "0.10"
serde = { version = "1", features = ["derive"] }
toml = "0.8"
fs2 = "0.4"
signal-hook = "0.3"
crc32fast = "1"
tokio = { version = "1", features = ["rt-multi-thread", "macros", "net"] }
axum = "0.8"
thiserror = "2"
