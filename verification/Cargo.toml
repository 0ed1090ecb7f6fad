[package]
name = "drinkard"
version = "0.1.0"
edition = "2021"
publish = false

[dependencies]
rand = "0.8"
serde = { version = "1", features = ["derive"] }
serde_json = "1"
tokio = { version = "1", features = ["macros", "rt-multi-thread", "sync"] }
tokio-stream = "0.1"
futures-util = "0.3"
warp = "0.3"
sqlx = { version = "0.8", features = ["mysql", "runtime-tokio"] }
anyhow = "1"
dotenv = "0.15"
log = "0.4"
pretty_env_logger = "0.5"
