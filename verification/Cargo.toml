[package]
name = "candle_feed"
version = "0.1.0"
edition = "2021"
publish = false

[dependencies]
chrono = "*"
futures-util = "*"
once_cell = "*"
serde = { version = "*", features = ["derive"] }
serde_json = "*"
tokio = { version = "*", features = ["macros", "rt-multi-thread", "net", "sync"] }
tokio-postgres = { version = "*", features = ["with-chrono-0_4"] }
tokio-tungstenite = "*"
toml = "*"
