[package]
name = "seeder"
version = "0.1.0"
edition = "2021"
publish = false

[dependencies]
rand = "0.8"
chrono = "0.4"
serde = { version = "1", features = ["derive"] }
tokio = { version = "1", features = ["macros", "rt-multi-thread", "net"] }
axum = "0.7"
http = "1"
tower-http = { version = "0.5", features = ["cors"] }
mysql_async = "*"
mongodb = "2"
dotenvy = "*"
futures = "0.3"
