[package]
name = "remap_lang"
version = "0.1.0"
edition = "2021"
publish = false

[dependencies]
seahash = "=4.1.0"
bytes = "=1.12.1"
anyhow = "=1.0.104"
thiserror = "=1.0.69"
dunce = "=1.0.5"
serde = { version = "=1.0.229", features = ["derive"] }
toml = "=0.5.11"
clap = { version = "=4.6.7", features = ["derive"] }
chrono = { version = "0.4", default-features = false, features = ["std"] }
