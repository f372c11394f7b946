[package]
name = "routekit"
version = "0.1.0"
edition = "2021"
publish = false

[dependencies]
warp = "=0.2.5"
tokio = { version = "=0.2.25", features = ["macros", "rt-threaded", "time", "sync"] }
serde = { version = "=1.0.229", features = ["derive"] }
serde_json = "=1.0.154"
serde_urlencoded = "=0.6.1"
futures = "=0.3.34"
sqlx = { version = "=0.3.5", default-features = false, features = ["runtime-tokio", "postgres"] }
juniper = { version = "=0.15.12", default-features = false }
juniper_warp = "=0.6.0"
dotenv = "=0.15.0"
