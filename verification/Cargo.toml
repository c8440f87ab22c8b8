[package]
name = "ai-catalog"
version = "0.1.0"
edition = "2021"
publish = false

[dependencies]
sha2 = "=0.10.9"
hex = "=0.4.3"
base64 = "=0.22.1"
regex = "=1.13.1"
time = { version = "=0.3.55", features = ["parsing", "formatting"] }
serde = { version = "=1.0.229", features = ["derive"] }
serde_json = "=1.0.154"
serde_jcs = "=0.2.0"
thiserror = "=2.0.21"

[dev-dependencies]
serde_json = "=1.0.154"
