[package]
name = "camera_config"
version = "0.1.0"
edition = "2021"
publish = false

[dependencies]
schemars = { version = "=0.8.22", features = ["derive"] }
serde = { version = "=1.0.229", features = ["derive"] }
serde_json = "=1.0.154"
serde_yaml = "=0.9.34"
sha2 = "=0.10.9"
thiserror = "=1.0.69"
