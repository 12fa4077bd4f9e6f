[package]
name = "dufs"
version = "0.1.0"
edition = "2021"
publish = false

[dependencies]
alphanumeric-sort = "1.5"
anyhow = "1.0"
axum = "0.8"
base64 = "0.22"
bytes = "1"
futures-util = "0.3"
headers = "0.4"
http = "1"
http-body-util = "0.1"
log = "0.4"
mime_guess = "2.0"
rpassword = "7.4"
rustix = { version = "1.1", features = ["fs", "process"] }
serde = { version = "1.0", features = ["derive"] }
serde_json = "1.0"
sha2 = "0.10"
tokio = { version = "1", features = ["full"] }
tokio-util = { version = "0.7", features = ["io", "rt"] }
uuid = { version = "1", features = ["v4"] }
