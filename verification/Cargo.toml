[package]
name = "openapi_fuzzer_state"
version = "0.1.0"
edition = "2021"
publish = false

[dependencies]
openapiv3 = "*"
serde = { version = "*", features = ["derive"] }
serde_json = "*"
