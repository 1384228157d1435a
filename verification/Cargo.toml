[package]
name = "yolo_pipeline"
version = "0.1.0"
edition = "2021"
publish = false

[dependencies]
image = "*"
ultralytics-inference = "*"
serde = { version = "*", features = ["derive"] }
toml = "*"
anyhow = "*"
thiserror = "*"
tracing = "*"
tracing-subscriber = "*"
indicatif = "*"
