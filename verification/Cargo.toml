[package]
name = "socks_scanner"
version = "0.1.0"
edition = "2021"
publish = false

[dependencies]
tokio = { version = "1", features = ["rt", "net", "time", "sync", "io-util"] }
structopt = "0.3"
colored = "2"
rand = "0.8"
indicatif = "0.17"
