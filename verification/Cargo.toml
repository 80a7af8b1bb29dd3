[package]
name = "suitware"
version = "0.1.0"
edition = "2021"
publish = false

[dependencies]
halfbrown = "*"
async-channel = "*"
anyhow = "1"
rumqttc = { version = "*", default-features = false }
backoff = { version = "*", features = ["futures", "tokio"] }
futures = "0.3"
tokio = { version = "1", features = ["full"] }
async-trait = "*"
thiserror = "*"
bincode = "1"
syn = { version = "1", features = ["full"] }
quote = "1"
proc-macro2 = "1"
fon = "=0.5.0"
twang = "=0.7.0"
