[package]
name = "workflow_monitor"
version = "0.1.0"
edition = "2021"
publish = false

[dependencies]
reqwest = { version = "*", default-features = false }
tokio = { version = "*", features = ["macros", "rt-multi-thread", "sync", "time"] }
actix-web = { version = "*", default-features = false, features = ["macros"] }
serde = { version = "*", features = ["derive"] }
serde_yaml = "*"
clap = "*"
futures = "*"
log = "*"
env_logger = "*"
anyhow = "*"
glob = "*"
async-trait = "*"
