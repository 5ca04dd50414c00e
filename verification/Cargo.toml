[package]
name = "rsclip-core"
version = "0.1.0"
edition = "2021"
publish = false

[dependencies]
url = "2"
chrono = "0.4"
anyhow = "1"
serde = { version = "1", features = ["derive"] }
toml = "*"
directories = "*"
rusqlite = { version = "*", features = ["bundled"] }
