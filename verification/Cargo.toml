[package]
name = "port_forwarder"
version = "0.1.0"
edition = "2021"
publish = false

[dependencies]
bytes = "1"
clap = { version = "4", features = ["derive"] }
env_logger = "0.10"
futures = "0.3"
http = "0.2"
http-body = "0.4"
hyper = { version = "0.14", features = ["full"] }
k8s-openapi = { version = "0.20", features = ["v1_28"] }
kube = { version = "0.87", default-features = false, features = ["client", "config", "rustls-tls", "ws"] }
log = "0.4"
parking_lot = "0.12"
regex = "1"
serde = { version = "1", features = ["derive"] }
serde_json = "1"
thiserror = "1"
tokio = { version = "1", features = ["full"] }
tower = "0.4"
