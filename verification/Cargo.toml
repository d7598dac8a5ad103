[package]
name = "id"
version = "0.1.0"
edition = "2021"
publish = false

[dependencies]
jsonwebtoken = { version = "=10.4.0", features = ["rust_crypto"] }
jsonwebkey = { version = "=0.4.0", features = ["generate", "jwt-convert"] }
rand = "=0.8.8"
url = "=2.5.8"
serde_json = "=1.0.151"
form_urlencoded = "=1.2.2"
chrono = "=0.4.45"
