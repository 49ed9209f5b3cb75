[package]
name = "file_hash_service"
version = "0.1.0"
edition = "2021"
publish = false

[dependencies]
sha2 = "0.10"
chrono = "0.4"
tokio = { version = "1", features = ["macros", "rt-multi-thread", "sync"] }
