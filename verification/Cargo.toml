[package]
name = "packed_dataset"
version = "0.1.0"
edition = "2021"
publish = false

[dependencies]
anyhow = "=1.0.104"
axum = "=0.7.9"
clap = { version = "=4.6.7", features = ["derive"] }
glob = "=0.3.4"
itertools = "=0.15.0"
rayon = "=1.12.0"
serde = { version = "=1.0.219", features = ["derive"] }
serde-jsonlines = "=0.7.0"
tokio = { version = "=1.54.1", features = ["rt-multi-thread", "macros", "net"] }
web-rwkv = "=0.8.20"
