[package]
name = "reqwave"
version = "0.1.0"
edition = "2021"
publish = false

[dependencies]
anyhow = "1"
bytes = "1"
eframe = { version = "0.31", default-features = false, features = ["default_fonts", "glow", "x11"] }
hdrhistogram = "7.5"
reqwest = { version = "0.12", default-features = false, features = ["rustls-tls"] }
serde_json = "1"
shlex = "1.3"
tokio = { version = "1", features = ["rt-multi-thread", "sync", "time", "macros"] }
url = "2.5"
