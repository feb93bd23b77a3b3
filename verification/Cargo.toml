[package]
name = "rubytext"
version = "0.1.0"
edition = "2021"
publish = false

[dependencies]
regex = "1"
xxhash-rust = { version = "0.8", features = ["xxh3"] }
lindera = "*"
axum = "*"
tokio = { version = "1", features = ["rt-multi-thread", "macros", "time", "net"] }
serde = { version = "1", features = ["derive"] }
serde_json = "1"
rusqlite = { version = "*", features = ["bundled"] }
arboard = { version = "3", default-features = false }
anyhow = "1"
once_cell = "1"
