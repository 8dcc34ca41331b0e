[package]
name = "nockpool_miner"
version = "0.1.0"
edition = "2021"
publish = false

[dependencies]
anyhow = "1"
async-trait = "0.1"
bytes = "1"
chrono = "0.4"
hex = "0.4"
rand = "0.8"
sha2 = "0.10"
sysinfo = "0.33"
tokio = { version = "1", features = ["full"] }
tracing = "0.1"
