[package]
name = "calmram"
version = "0.1.0"
edition = "2021"
publish = false

[dependencies]
serde = { version = "1", features = ["derive"] }
serde_json = "1"
rocket = "0.5"
rocket_ws = "0.1"
rocket_db_pools = { version = "0.2", features = ["sqlx_postgres"] }
sqlx = { version = "0.7", default-features = false, features = ["postgres", "time"] }
websocket = { version = "0.27", default-features = false, features = ["sync"] }
