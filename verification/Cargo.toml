[package]
name = "diary_generator"
version = "0.1.0"
edition = "2021"
publish = false

[dependencies]
anyhow = "*"
async-recursion = "*"
futures-util = "*"
reqwest = { version = "*", default-features = false }
serde = { version = "*", features = ["derive"] }
serde_json = "*"
time = { version = "*", features = ["formatting", "parsing"] }
tokio = { version = "*", features = ["full"] }
tokio-stream = { version = "*", features = ["fs"] }
tracing = "*"
tracing-subscriber = "*"
