[package]
name = "i18n_editor"
version = "0.1.0"
edition = "2021"
publish = false

[dependencies]
anyhow = "1"
base64 = "0.22"
indexmap = { version = "2", features = ["serde"] }
minreq = { version = "2", features = ["https-rustls", "proxy"] }
serde = { version = "1", features = ["derive"] }
serde_json = "1"
