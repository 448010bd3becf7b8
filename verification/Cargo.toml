[package]
name = "website-screenshot"
version = "2.0.0"
edition = "2021"
publish = false

[dependencies]
regress = "=0.5.0"
url = "=2.5.8"
serde = { version = "=1.0.229", features = ["derive"] }
serde_json = "=1.0.154"
base64 = "=0.13.1"
cuid = "=1.3.3"
actix-web = "=4.18.1"
fantoccini = "=0.19.3"
http = "=0.2.12"
reqwest = { version = "=0.11.27", features = ["json"] }
redis = { version = "=0.22.4", features = ["tokio-comp"] }
tokio = { version = "=1.54.1", features = ["full"] }
dotenv = "=0.15.0"
tracing = "=0.1.44"
tracing-subscriber = "=0.3.23"
tracing-actix-web = "=0.7.25"
futures-util = "=0.3.34"
async-trait = "=0.1.92"
anyhow = "=1.0.104"
rust-s3 = "0.31"
website-screenshot-actix-governor = "*"
