[package]
name = "mini-telnet"
version = "0.1.0"
edition = "2021"
publish = false

[dependencies]
bytes = "1"
encoding = "0.2"
futures = "0.3"
thiserror = "1"
tokio = { version = "1", features = ["net", "time", "io-util"] }
tokio-util = { version = "0.7", features = ["codec"] }
