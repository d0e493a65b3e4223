[package]
name = "mineplace3d-launcher"
version = "0.2.0"
edition = "2021"
publish = false

[dependencies]
serde_json = "1"
serde = "1"
dirs = "6"
bytes = "1"
tokio = { version = "1", features = ["macros", "time", "rt-multi-thread"] }
reqwest = { version = "0.12", default-features = false, features = ["json", "stream", "rustls-tls"] }
zip = "2"
iced = { version = "0.14", default-features = false, features = ["tokio", "tiny-skia", "x11"] }
