[package]
name = "rvllm_runtime"
version = "0.3.0"
edition = "2021"
publish = false

[dependencies]
ctrlc = "3"
fs4 = "*"
half = "2"
serde = { version = "1", features = ["derive"] }
serde_json = "1"
sha2 = "0.10"
tokenizers = { version = "0.21", default-features = false, features = ["fancy-regex"] }

[dev-dependencies]
tempfile = "3"
