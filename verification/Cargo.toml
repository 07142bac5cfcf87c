[package]
name = "deepseek_recipe"
version = "0.1.0"
edition = "2021"
publish = false

[dependencies]
serde = { version = "1", features = ["derive"] }
serde_json = { version = "1", features = ["preserve_order"] }
base64 = "0.22"
data-url = "0.3"
jsonschema = { version = "0.18", default-features = false }
infer = "0.16"
tokio = { version = "1", features = ["rt", "time", "macros", "sync"] }
futures = "0.3"
async-stream = "0.3"
tokio-stream = "0.1"
reqwest = { version = "0.12", default-features = false, features = ["stream"] }
tokenizers = { version = "0.21", default-features = false, features = ["onig"] }
thiserror = "2"
