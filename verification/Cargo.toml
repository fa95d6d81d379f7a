[package]
name = "atium"
version = "0.1.0"
edition = "2021"
publish = false

[dependencies]
routefinder = "*"
mime_guess = "2"
mime = "0.3"
hyper = { version = "0.14", features = ["server", "http1", "tcp", "stream"] }
headers = "0.3"
tokio = { version = "1", features = ["rt-multi-thread", "macros", "signal", "sync", "time"] }
futures = "0.3"
log = "0.4"
thiserror = "1"
anyhow = "1"
serde = "1"
serde_json = "1"
serde_qs = "*"
