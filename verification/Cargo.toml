[package]
name = "wolfram"
version = "0.1.0"
edition = "2021"
publish = false

[dependencies]
sha256 = "=1.6.0"
base64 = "=0.23.1"
rand = "=0.10.3"
argon2 = "=0.6.0"
uuid = { version = "=1.29.0", features = ["v4"] }
chrono = "=0.4.45"
arc-swap = "=1.9.3"
jsonwebtoken = { version = "=11.1.0", features = ["rust_crypto"] }
serde = { version = "=1.0.229", features = ["derive"] }
toml = "=1.1.8"
thiserror = "=2.0.21"
log = "=0.4.35"
env_logger = "=0.11.11"
tokio = { version = "=1.54.1", features = ["full"] }
axum = "=0.8.9"
sqlx = { version = "=0.9.0", features = ["postgres", "runtime-tokio", "uuid", "chrono", "macros"] }
pingora-core = "=0.9.1"
pingora-proxy = "=0.9.1"
pingora-http = "=0.9.1"
pingora-error = "=0.9.1"
pingora-load-balancing = "=0.9.1"
pingora-limits = "=0.9.1"
async-trait = "=0.1.92"
bytes = "=1.12.1"
anyhow = "=1.0.104"
atomic_enum = "=0.3.0"
