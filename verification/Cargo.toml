[package]
name = "recon"
version = "0.1.0"
edition = "2021"
publish = false

[dependencies]
image = "=0.25.10"
chrono = "=0.4.45"
const_soft_float = "=0.1.4"
rustc_apfloat = "=0.2.3"
serde = { version = "=1.0.229", features = ["derive"] }
axum = "=0.8.9"
tokio = { version = "=1.53.2", features = ["rt-multi-thread", "macros", "net", "sync", "time"] }
reqwest = { version = "=0.12.28", default-features = false, features = ["json"] }
sysinfo = "=0.39.6"
uuid = { version = "=1.27.0", features = ["v4", "serde"] }
env_logger = "=0.11.11"
rand = "=0.8.8"
