[package]
name = "rinha"
version = "0.1.0"
edition = "2021"
publish = false

[dependencies]
chrono = "0.4"
tokio = { version = "1", features = ["full"] }
hyper = { version = "1", features = ["http1", "server", "client"] }
hyper-util = { version = "0.1", features = ["client-legacy", "http1", "server", "tokio"] }
http = "1"
http-body-util = "0.1"
socket2 = { version = "0.5", features = ["all"] }
