[package]
name = "pace_core"
version = "0.1.0"
edition = "2021"
publish = false

[dependencies]
chrono = "=0.4.45"
ulid = "=1.2.1"
humantime = "=2.4.0"
serde = { version = "=1.0.229", features = ["derive"] }
serde_json = "=1.0.154"
toml = "=0.8.23"
directories = "=5.0.1"
open = "=5.4.5"
tabled = "=0.15.0"
tera = { version = "=1.20.1", default-features = false }
dialoguer = { version = "0.11", features = ["fuzzy-select"] }
