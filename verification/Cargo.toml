[package]
name = "minedmap"
version = "0.1.0"
edition = "2021"
publish = false

[dependencies]
anyhow = "1"
clap = { version = "4", features = ["derive"] }
fastnbt = "2"
flate2 = "1"
humantime = "2"
image = { version = "0.25", default-features = false, features = ["png", "webp"] }
indexmap = { version = "2", features = ["serde"] }
notify = "*"
num_cpus = "1"
rayon = "1"
regex = "1"
rusty-leveldb = "*"
serde = { version = "1", features = ["derive"] }
serde_json = "1"
tokio = { version = "1", features = ["rt"] }
tracing = "0.1"
tracing-subscriber = "0.3"
