[package]
name = "rseip"
version = "0.1.0"
edition = "2021"
publish = false

[dependencies]
bytes = "1"
byteorder = "1"
rand = "0.8"
smallvec = "1"
log = "0.4"
async-trait = "0.1"
futures-util = { version = "0.3", features = ["sink"] }
tokio = { version = "1", features = ["net", "io-util", "time", "sync", "rt", "macros"] }
tokio-util = { version = "0.7", features = ["codec", "net"] }
