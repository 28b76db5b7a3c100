[package]
name = "kubetunnel"
version = "0.1.0"
edition = "2021"
publish = false

[dependencies]
httparse = "=1.10.1"
anyhow = "1"
log = "0.4"
env_logger = "0.11"
tokio = { version = "1", features = ["full"] }
kube = "=3.1.0"
k8s-openapi = { version = "=0.27.1", features = ["latest"] }
hickory-resolver = "=0.26.3"
