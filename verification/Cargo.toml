[package]
name = "tracedecay"
version = "0.1.0"
edition = "2021"
publish = false

[dependencies]
hex = "0.4"
libsql = { version = "*", default-features = false, features = ["core"] }
serde = { version = "1", features = ["derive"] }
serde_json = "1"
sha2 = "0.10"
tracing = "0.1"
