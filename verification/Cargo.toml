[package]
name = "randregex"
version = "0.1.0"
edition = "2021"
publish = false

[dependencies]
rand = "=0.8.8"
regex = "=1.13.1"
anyhow = "=1.0.104"
dotenv = "=0.15.0"
env_logger = "=0.11.11"
log = "=0.4.34"
once_cell = "=1.21.4"
sqlx = { version = "=0.8.6", default-features = false, features = ["mysql", "runtime-tokio", "derive"] }
tokio = { version = "=1.54.1", features = ["macros", "rt-multi-thread"] }
traq-ws-bot = { version = "=0.1.2", features = ["openapi"] }
uuid = "=1.29.0"
