[package]
name = "starling"
version = "0.1.0"
edition = "2021"
publish = false

[dependencies]
anyhow = "=1.0.104"
axum = { version = "=0.7.9", features = ["ws"] }
bollard = "0.18"
chrono = "=0.4.45"
clap = { version = "=4.6.7", features = ["derive"] }
dirs = "=5.0.1"
futures = "=0.3.34"
k8s-openapi = { version = "=0.23.0", features = ["latest"] }
kube = { version = "=0.96.0", default-features = false, features = ["client", "ws", "rustls-tls"] }
libc = "=0.2.191"
notify = "=6.1.1"
rcgen = { version = "=0.13.2", features = ["x509-parser"] }
regex = "=1.13.1"
serde = { version = "=1.0.229", features = ["derive"] }
serde_json = "=1.0.154"
serde_yaml = "=0.9.34"
tar = "=0.4.46"
tokio = { version = "=1.54.1", features = ["full"] }
tokio-rustls = { version = "=0.26.6", default-features = false, features = ["ring", "tls12", "logging"] }
tokio-util = { version = "=0.7.20", features = ["full"] }
tower-http = { version = "=0.5.2", features = ["fs", "cors"] }
tracing = "=0.1.44"
tracing-subscriber = { version = "=0.3.23", features = ["env-filter"] }
uuid = { version = "=1.29.0", features = ["v4"] }
