[package]
name = "relay_client"
version = "0.1.0"
edition = "2021"
publish = false

[dependencies]
url = "*"
tungstenite = { version = "*", features = ["native-tls"] }
hyper = { version = "0.14", features = ["client", "http1", "tcp"] }
hyper-tls = "0.5"
tokio = { version = "1", features = ["rt"] }
dotenv = "*"
env_logger = "*"
