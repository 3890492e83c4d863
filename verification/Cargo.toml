[package]
name = "hostfs"
version = "0.1.0"
edition = "2021"
publish = false

[dependencies]
ring = "=0.17.14"
base64 = "=0.23.1"
bcrypt = "=0.19.3"
uuid = { version = "=1.27.0", features = ["v4"] }
chrono = { version = "=0.4.45", features = ["serde"] }
serde = { version = "=1.0.229", features = ["derive"] }
serde_json = "=1.0.151"
jsonwebtoken = "=11.1.0"
anyhow = "*"
log = "*"
env_logger = "*"
dotenv = "*"
mime_guess = "*"
prometheus = "=0.14.0"
futures = "*"
tokio = { version = "=1.53.2", features = ["rt-multi-thread", "macros", "fs"] }
actix-web = "=4.15.0"
actix-cors = "=0.7.2"
actix-multipart = "=0.8.5"
actix-web-httpauth = "=0.8.3"
sqlx = { version = "=0.9.0", default-features = false, features = ["runtime-tokio", "sqlite"] }
reqwest = { version = "=0.13.5", default-features = false }
ssh2 = "=0.9.6"
