[package]
name = "bony-build"
version = "0.1.2"
edition = "2021"
publish = false

[dependencies]
serde = { version = "1", features = ["derive"] }
serde_json = "1"
toml_edit = "*"
dirs = "*"
reqwest = { version = "0.12", default-features = false, features = ["json"] }
urlencoding = "2"
anyhow = "1"
tokio = { version = "1", features = ["process", "rt", "macros"] }
