[package]
name = "raci_core"
version = "0.1.0"
edition = "2021"
publish = false

[dependencies]
subtle = "*"
chrono = "*"
uuid = { version = "*", features = ["v4"] }
axum = "*"
serde = { version = "*", features = ["derive"] }
serde_json = "*"
sqlx = { version = "*", default-features = false, features = ["runtime-tokio", "sqlite"] }
tantivy = "*"
tokio = { version = "*", features = ["rt-multi-thread", "macros", "net", "sync", "time"] }
tower-http = { version = "*", features = ["cors"] }
dotenvy = "*"
