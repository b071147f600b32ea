[package]
name = "poem-wasmhandler"
version = "0.1.0"
edition = "2021"
publish = false

[dependencies]
bytes = "=1.12.1"
futures-util = "=0.3.34"
poem = "=3.1.12"
tokio = { version = "=1.54.1", features = ["io-util", "time", "sync"] }
wasmtime = { version = "=40.0.4", default-features = false, features = ["runtime", "async", "std"] }
