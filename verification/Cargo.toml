[package]
name = "eudi_access"
version = "0.1.0"
edition = "2021"
publish = false

[dependencies]
anyhow = "1"
async-trait = "0.1"
bluer = { version = "0.17", features = ["bluetoothd"] }
futures = "0.3"
isomdl = "0.2"
pcsc = "2"
qrcode = { version = "0.14", default-features = false, features = ["svg"] }
serde_json = "1"
tokio = { version = "1", features = ["full"] }
tracing = "0.1"
tracing-subscriber = { version = "0.3", features = ["env-filter"] }
uuid = { version = "1", features = ["v4"] }
