[package]
name = "github"
version = "0.1.0"
edition = "2021"
publish = false

[dependencies]
actix-multipart = "=0.8.5"
actix-rt = "=2.15.0"
actix-web = { version = "=4.15.0", features = ["openssl"] }
chrono = "=0.4.45"
dotenv = "=0.15.0"
env_logger = "=0.11.11"
futures-util = "=0.3.34"
log = "=0.4.34"
openssl = "=0.10.81"
reqwest = { version = "=0.12.28", default-features = false, features = ["rustls-tls"] }
serde = { version = "=1.0.229", features = ["derive"] }
serde_json = "=1.0.151"
