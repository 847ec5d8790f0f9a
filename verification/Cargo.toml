[package]
name = "yado_notch"
version = "0.1.0"
edition = "2021"
publish = false

[dependencies]
base64 = "=0.22.1"
serde = { version = "1", features = ["derive"] }
serde_json = "1"
rusqlite = "*"
dirs = "*"
notify = "*"
image = { version = "*", default-features = false, features = ["png"] }
windows-collections = "*"
windows-future = "*"
