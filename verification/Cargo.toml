[package]
name = "insta_mosaic"
version = "0.1.0"
edition = "2021"
publish = false

[dependencies]
base64 = "=0.13.1"
percent-encoding = "=1.0.1"
image = { version = "=0.25.10", default-features = false, features = ["png", "jpeg"] }
serde = { version = "=1.0.229", features = ["derive"] }
serde_json = "=1.0.154"
futures = "=0.3.34"
tokio = { version = "=1.54.1", features = ["rt", "rt-multi-thread", "time"] }
hyper = { version = "=0.14.32", features = ["client", "http1", "tcp"] }
hyper-tls = "=0.5.0"
rocket = { version = "0.5", features = ["json"] }
rocket_cors = "0.6"
mongodb = { version = "2", default-features = false, features = ["tokio-sync"] }
bson = "2"
