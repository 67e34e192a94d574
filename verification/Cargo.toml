[package]
name = "compositor"
version = "0.1.0"
edition = "2021"
publish = false

[dependencies]
anyhow = "1"
fuzzy-matcher = "0.3"
hashbrown = "0.14"
tokio = { version = "1", features = ["rt-multi-thread"] }
tui = { version = "0.19", default-features = false }
unicode-width = "0.1"
