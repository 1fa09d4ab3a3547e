[package]
name = "tokio_http2"
version = "0.1.0"
edition = "2021"
publish = false

[dependencies]
byteorder = "1"
chrono = "0.4"
futures = "0.1"
httparse = "1"
multipart = { version = "0.18", default-features = false, features = ["server"] }
rand = "0.8"
regex = "1"
slog = "2"
slog-syslog = "0.13"
slog-term = "2"
tokio-core = "0.1"
tokio-proto = "0.1"
tokio-service = "0.1"
unicase = "2"
url = "2"
