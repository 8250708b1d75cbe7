[package]
name = "bench_rs"
version = "0.1.0"
edition = "2021"
publish = false

[dependencies]
stats_alloc = "*"
bunt = "*"
human_bytes = "*"
serde = { version = "1", features = ["derive"] }

[dev-dependencies]
rand = "*"
rcnb-rs = "*"
