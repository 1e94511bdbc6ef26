[package]
name = "data_station"
version = "0.1.0"
edition = "2021"
publish = false

[dependencies]
shell-words = "1"
tokio = { version = "1", features = ["rt-multi-thread", "macros", "sync"] }
ollama-rs = "*"
sqlite = "*"
