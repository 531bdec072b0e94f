[package]
name = "ipfs_operator"
version = "0.1.0"
edition = "2021"
publish = false

[dependencies]
k8s-openapi = { version = "0.26", features = ["latest"] }
kube = { version = "=2.0.1", default-features = false, features = ["client", "runtime"] }
kube-runtime = { version = "=2.0.1" }
serde_json = { version = "=1.0.154" }
thiserror = { version = "=2.0.21" }
tokio = { version = "=1.54.1", features = ["rt", "time"] }
tracing = { version = "=0.1.44" }
