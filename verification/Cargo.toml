[package]
name = "pinochle"
version = "0.1.0"
edition = "2021"
publish = false

[dependencies]
either = "1"
rand = "0.8"
serde = { version = "1", features = ["derive"] }
serde_json = "1"
futures = "0.3"
tokio = { version = "1", features = ["macros", "rt-multi-thread"] }
warp = "0.3"
