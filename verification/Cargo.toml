[package]
name = "task_bridge"
version = "0.1.0"
edition = "2021"
publish = false

[dependencies]
axum = "0.8"
clap = { version = "4", features = ["derive", "env"] }
dotenv = "0.15"
egui = "0.32"
env_logger = "0.11"
include_dir = "0.7"
log = "0.4"
n0-future = "*"
reqwest = { version = "0.12", default-features = false }
serde = { version = "1", features = ["derive"] }
sqlx = { version = "0.8", default-features = false, features = ["derive", "macros", "postgres", "runtime-tokio"] }
tokio = { version = "1", features = ["fs", "macros", "net", "rt-multi-thread"] }
