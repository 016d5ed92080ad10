[package]
name = "ggml_builder"
version = "0.1.0"
edition = "2021"
publish = false

[dependencies]
anyhow = "1"
byteorder = "1"
clap = { version = "4", features = ["derive"] }
env_logger = "0.11"
log = "0.4"
safetensors = "0.5"
serde_json = "1"
thiserror = "1"

[dev-dependencies]
bytemuck = "1"
rand = "0.8"
