[package]
name = "rust4diva"
version = "0.1.0"
edition = "2021"
publish = false

[dependencies]
filenamify = "0.1"
image = { version = "0.25", default-features = false, features = ["png", "jpeg", "gif", "webp", "bmp"] }
serde = { version = "1", features = ["derive"] }
sonic-rs = "0.3"
tokio = { version = "1", features = ["rt-multi-thread", "macros", "net", "io-util", "sync", "time"] }
reqwest = { version = "0.12", default-features = false, features = ["rustls-tls"] }
curl = "0.4"
