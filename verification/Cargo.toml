[package]
name = "wenmeng"
version = "0.1.0"
edition = "2021"
publish = false

[dependencies]
algorithm = "*"
webparse = "*"
flate2 = "1"
brotli = "*"
tokio = { version = "1", features = ["sync", "io-util", "fs", "rt", "time"] }
tokio-util = { version = "0.7", features = ["codec"] }
tokio-stream = "0.1"
futures-core = "0.3"
bytes = "1"
async-trait = "0.1"
log = "0.4"
