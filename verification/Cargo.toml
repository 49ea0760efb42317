[package]
name = "nba_agent"
version = "0.1.0"
edition = "2021"
publish = false

[dependencies]
anyhow = "1"
async-stream = "0.3"
axum = "0.8"
dotenvy = "0.15"
duckdb = { version = "*", default-features = false, features = ["r2d2"] }
futures = "0.3"
ipnet = "2"
moka = { version = "0.12", features = ["sync"] }
parking_lot = "0.12"
r2d2 = "0.8"
reqwest = { version = "0.12", default-features = false, features = ["json", "rustls-tls"] }
serde = { version = "1", features = ["derive"] }
serde_json = "1"
sqlparser = { version = "*", features = ["visitor"] }
tokio = { version = "1", features = ["full"] }
tower-http = { version = "0.6", features = ["cors", "compression-gzip", "fs"] }
tracing = "0.1"
tracing-subscriber = { version = "0.3", features = ["env-filter"] }
uuid = { version = "1", features = ["v4"] }
