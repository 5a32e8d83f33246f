[package]
name = "epirust"
version = "0.1.0"
edition = "2021"
publish = false

[dependencies]
rand = "0.8"
serde = { version = "1", features = ["derive"] }
serde_json = "1"
clap = "*"
ndarray = "*"
futures = "0.3"
tokio = { version = "1", features = ["macros", "rt-multi-thread"] }
rdkafka = "*"
