[package]
name = "memos"
version = "0.1.0"
edition = "2021"
publish = false

[dependencies]
unicode_categories = "=0.1.1"
comrak = { version = "=0.59.0", default-features = false }
serde = { version = "=1.0.229", features = ["derive"] }
serde_json = "=1.0.154"
rusqlite = { version = "=0.41.1", features = ["bundled"] }
ureq = "=2.12.1"
image = { version = "=0.25.10", default-features = false, features = ["png", "jpeg", "gif", "webp"] }
markitdown = "=0.1.11"
zip = { version = "=2.2.0", default-features = false, features = ["deflate"] }
