[package]
name = "designstorm"
version = "0.1.0"
edition = "2021"
publish = false

[dependencies]
aes-gcm = "=0.10.3"
askama = "*"
async-trait = "*"
axum = { version = "0.8", features = ["multipart"] }
base64 = "=0.22.1"
chrono = { version = "=0.4.45", features = ["serde"] }
cookie = "*"
dotenvy = "*"
futures-util = "*"
jsonwebtoken = "*"
lash-core = "=0.1.0-alpha.113"
mime_guess = "*"
reqwest = { version = "*", features = ["json"] }
serde = { version = "1", features = ["derive"] }
serde_json = "1"
sha2 = "=0.10.9"
sqlx = { version = "*", features = ["runtime-tokio", "postgres", "uuid", "chrono", "json", "migrate"] }
thiserror = "*"
time = "*"
tokio = { version = "1", features = ["full"] }
tokio-util = "*"
tower-http = { version = "*", features = ["fs", "trace"] }
tracing = "*"
tracing-subscriber = { version = "*", features = ["env-filter"] }
uuid = { version = "=1.29.0", features = ["v4", "serde"] }
walkdir = "*"
zip = "*"
