[package]
name = "search_engine_state"
version = "0.1.0"
edition = "2021"
publish = false

[dependencies]
jiff = "0.2"
jwalk = "0.8"
serde = { version = "1", features = ["derive"] }
tokio = { version = "1", features = ["rt-multi-thread"] }
