[package]
name = "comingle"
version = "0.1.0"
edition = "2021"
publish = false

[dependencies]
iri-string = "0.7"
flate2 = "1"
zstd = "0.13"
md5 = "0.7"
bytes = "1"
serde = { version = "1", features = ["derive"] }
serde_json = "1"
tokio = { version = "1", features = ["rt-multi-thread", "macros", "net", "fs", "io-util"] }
axum = "0.8"
tower-http = { version = "0.6", features = ["cors"] }
quick_cache = "0.6"
moka = { version = "0.12", features = ["future"] }
anyhow = "1"
thiserror = "2"
tracing = "0.1"
dotenvy = "0.15"
async-trait = "0.1"
async-recursion = "1"
regex = "1"
