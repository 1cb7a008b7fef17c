[package]
name = "robrix"
version = "0.1.0"
edition = "2021"
publish = false

[dependencies]
futures-util = "0.3"
makepad-widgets = "=1.0.0"
reqwest = { version = "0.12", default-features = false, features = ["stream"] }
tokio = { version = "1", features = ["rt", "rt-multi-thread", "net", "time", "io-util"] }
wew = "=0.1.0"
