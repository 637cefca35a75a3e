[package]
name = "eueoeo"
version = "0.1.0"
edition = "2021"
publish = false

[dependencies]
anyhow = "*"
async-trait = "*"
axum = "*"
chrono = "*"
clap = { version = "*", features = ["derive"] }
crossbeam = "*"
env_logger = "*"
futures-util = "*"
log = "*"
serde = { version = "*", features = ["derive"] }
serde_json = "*"
sqlx = { version = "*", features = ["runtime-tokio", "sqlite"] }
thiserror = "*"
tokio = { version = "*", features = ["rt-multi-thread", "macros", "net", "signal", "sync", "time"] }
tokio-tungstenite = "*"
url = "*"

[dev-dependencies]
serde_ipld_dagcbor = "*"
