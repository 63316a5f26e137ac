[package]
name = "wickle"
version = "0.1.0"
edition = "2021"
publish = false

[dependencies]
futures-util = "=0.3.34"
jsonschema = { version = "=0.60.2", default-features = false }
serde = { version = "=1.0.229", features = ["derive"] }
serde_json = { version = "=1.0.154", features = ["raw_value"] }
sha2 = "=0.10.9"
thiserror = "=2.0.21"
tokio = { version = "=1.54.1", features = ["macros", "rt", "sync", "time"] }
tokio-util = "=0.7.20"
