[package]
name = "youtube_captions"
version = "0.1.0"
edition = "2021"
publish = false

[dependencies]
language-tags = "0.3"
quick-xml = "0.31"
regex = "1"
reqwest = { version = "0.11", default-features = false }
serde = { version = "1", features = ["derive"] }
serde_json = "1"
thiserror = "1"
tokio = { version = "1", features = ["sync"] }
