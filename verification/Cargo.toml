[package]
name = "clishare"
version = "0.1.0"
edition = "2021"
publish = false

[dependencies]
base64 = "=0.21.7"
chrono = "=0.4.45"
crossbeam-channel = "=0.5.17"
dotenv = "=0.15.0"
handlebars = "=4.5.0"
rand = "=0.8.8"
rocket = { version = "=0.5.2", features = ["json"] }
serde = { version = "=1.0.229", features = ["derive"] }
serde_json = "=1.0.154"
sqlx = { version = "=0.7.4", default-features = false, features = ["runtime-tokio", "sqlite", "chrono"] }
structopt = "=0.3.26"
thiserror = "=1.0.69"
tokio = { version = "=1.54.1", features = ["rt-multi-thread"] }
uuid = { version = "=1.29.0", features = ["v4"] }
