[package]
name = "tikclip"
version = "0.1.0"
edition = "2021"
publish = false

[dependencies]
serde_json = "1"
serde = { version = "1", features = ["derive"] }
reqwest = { version = "0.12", default-features = false }
chrono = { version = "0.4", default-features = false, features = ["clock", "std"] }
rusqlite = { version = "0.31", features = ["bundled"] }
log = "0.4"
