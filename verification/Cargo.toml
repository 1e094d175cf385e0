[package]
name = "rustcord"
version = "0.1.0"
edition = "2021"
publish = false

[dependencies]
async-trait = "=0.1.92"
flate2 = "=1.1.10"
futures = "=0.3.34"
governor = "=0.10.4"
indicatif = "=0.18.6"
log = "=0.4.35"
reqwest = { version = "=0.12.28", default-features = false, features = ["json", "rustls-tls"] }
serde = { version = "=1.0.229", features = ["derive"] }
serde_json = "=1.0.154"
serenity = { version = "=0.12.5", default-features = false, features = ["builder", "client", "gateway", "http", "model", "rustls_backend"] }
thiserror = "=2.0.21"
time = { version = "=0.3.55", features = ["serde-human-readable"] }
tokio = { version = "=1.54.1", features = ["fs", "macros", "rt-multi-thread", "sync"] }
uuid = { version = "=1.29.0", features = ["serde"] }
