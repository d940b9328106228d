[package]
name = "dprint-plugin-clang"
version = "0.1.0"
edition = "2021"
publish = false

[dependencies]
anyhow = "1"
dprint-core = { version = "*", features = ["process"] }
indexmap = "2"
once_cell = "1"
serde = { version = "1", features = ["derive"] }
serde_json = "1"
sha256 = "1"
tokio = { version = "1", features = ["io-util", "macros", "process", "rt"] }
toml = "*"
