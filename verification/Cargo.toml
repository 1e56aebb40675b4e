[package]
name = "redis_cluster"
version = "0.1.0"
edition = "2021"
publish = false

[dependencies]
rand = "0.8"
fast-math = "0.1"
tokio = { version = "1", features = ["sync", "time", "rt"] }
futures = "0.3"
futures-time = "3"
backoff = { version = "0.4", features = ["tokio"] }
arcstr = "1"
dispose = "0.5"
