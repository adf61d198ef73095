[package]
name = "simulation"
version = "0.1.0"
edition = "2021"
publish = false

[dependencies]
rand_chacha = "*"
rand = "*"
tokio = { version = "*", features = ["full"] }
clap = { version = "*", features = ["derive"] }
rdkafka = "*"
redis = { version = "*", features = ["tokio-comp"] }
ratatui = "*"
color-eyre = "*"
tracing = "*"
tracing-subscriber = "*"
futures = "*"
async-trait = "*"
