[package]
name = "oas_middleware"
version = "0.1.0"
edition = "2021"
publish = false

[dependencies]
anyhow = "=1.0.104"
chrono = "=0.4.45"
env_logger = "=0.7.1"
futures = "=0.1.31"
http = "=0.1.21"
hyper = "=0.12.36"
indexmap = "=1.9.3"
log = "=0.4.34"
openapiv3 = "=1.0.4"
serde = { version = "=1.0.229", features = ["derive"] }
serde_json = "=1.0.154"
serde_yaml = "=0.8.26"
simple_proxy = { version = "=1.2.1", features = ["health"] }
structopt = "=0.3.26"
thiserror = "=1.0.69"
uuid = "=1.29.0"
