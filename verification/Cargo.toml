[package]
name = "aux_svc"
version = "0.1.0"
edition = "2021"
publish = false

[dependencies]
anyhow = "=1.0.104"
chrono = { version = "=0.4.45", default-features = false, features = ["clock"] }
config = { version = "*", default-features = false, features = ["toml", "json", "yaml"] }
fluent = "=0.16.1"
lazy_static = "=1.5.1"
thiserror = "=1.0.69"
