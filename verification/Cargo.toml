[package]
name = "cip_messaging"
version = "0.1.0"
edition = "2021"
publish = false

[dependencies]
async-trait = "0.1"
byteorder = "1"
bytes = "1"
rseip-core = "*"
rseip-eip = "*"
smallvec = "1"
tokio = { version = "1", features = ["io-util"] }
