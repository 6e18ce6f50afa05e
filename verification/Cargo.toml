[package]
name = "stream_http"
version = "0.1.0"
edition = "2021"
publish = false

[dependencies]
async-trait = "0.1"
dotenv = "0.15"
http = "1"
mime_guess = "2"
tokio = { version = "1", features = ["io-util", "net", "time"] }
tokio-rustls = { version = "0.26", default-features = false }
