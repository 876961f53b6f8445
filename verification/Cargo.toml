[package]
name = "hqm_bot"
version = "0.1.0"
edition = "2021"

[dependencies]
bytes = "1"
nalgebra = "0.33"
tokio = { version = "1", features = ["macros", "net", "rt", "rt-multi-thread", "sync"] }
