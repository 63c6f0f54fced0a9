[package]
name = "podracer"
version = "0.1.0"
edition = "2021"
publish = false

[dependencies]
rapier2d = "0.22"
serde = { version = "1", features = ["derive"] }
serde_json = "1"
tokio = { version = "1", features = ["macros", "rt-multi-thread", "net", "time"] }
tokio-tungstenite = "0.24"
futures-util = "0.3"
