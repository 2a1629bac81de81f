[package]
name = "chess_sync"
version = "0.1.0"
edition = "2021"
publish = false

[dependencies]
shakmaty = "=0.27.3"
rand = "=0.8.8"
serde_json = "=1.0.151"
serde = { version = "=1.0.229", features = ["derive"] }
serde_urlencoded = "=0.7.1"
reqwest = { version = "=0.12.28", default-features = false, features = ["stream"] }
tokio = { version = "=1.53.2", features = ["rt-multi-thread", "macros"] }
futures-util = "=0.3.34"
clap = { version = "=4.5.61", features = ["derive"] }
env_logger = "=0.11.11"
log = "=0.4.34"
