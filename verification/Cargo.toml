[package]
name = "operator_deploy"
version = "0.1.0"
edition = "2021"
publish = false

[dependencies]
anyhow = "=1.0.104"
k8s-openapi = { version = "=0.26.1", default-features = false, features = ["v1_34"] }
kube = { version = "=2.0.1", default-features = false, features = ["client"] }
serde_json = "=1.0.154"
tokio = { version = "=1.54.1", features = ["rt-multi-thread", "time"] }
