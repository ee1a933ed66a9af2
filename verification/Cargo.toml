[package]
name = "pawn_requests"
version = "0.1.0"
edition = "2021"
publish = false

[dependencies]
futures = "=0.3.34"
reqwest = { version = "=0.12.28", default-features = false }
samp-sdk = "=0.8.4"
tokio = { version = "=1.54.1", features = ["rt-multi-thread"] }
