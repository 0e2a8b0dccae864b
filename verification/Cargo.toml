[package]
name = "phantom_core"
version = "0.1.0"
edition = "2021"
publish = false

[dependencies]
base64 = "*"
rand = { version = "*", features = ["small_rng"] }
clap = { version = "*", features = ["derive"] }
tokio = { version = "*", features = ["rt-multi-thread", "net", "macros", "io-util"] }
tokio-postgres = { version = "*", features = ["with-serde_json-1"] }
serde_json = "*"
