[package]
name = "zenopanel"
version = "0.1.0"
edition = "2021"
publish = false

[dependencies]
base64 = "0.22"
zenocore = "0.2"
serde = { version = "1", features = ["derive"] }
serde_json = "1"
serde_yaml = "0.9"
chrono = "0.4"
rand = "0.8"
reqwest = { version = "0.12", default-features = false, features = ["json", "rustls-tls"] }
tokio = { version = "1", features = ["full"] }
flate2 = "1"
tar = "0.4"
libc = "0.2"
sysinfo = "0.30"
zip = { version = "0.6", default-features = false, features = ["deflate"] }
bcrypt = "0.15"
axum = "0.7"
multer = "3"
futures-util = "0.3"
