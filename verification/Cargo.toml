[package]
name = "warden-secret-operator"
version = "0.1.0"
edition = "2021"
publish = false

[dependencies]
config = "0.13"
futures = "0.3"
k8s-openapi = { version = "0.21", features = ["v1_26"] }
kube = { version = "0.88", default-features = false, features = ["client", "derive", "runtime", "rustls-tls"] }
log = "0.4"
schemars = "0.8"
secstr = "0.5"
serde = { version = "1", features = ["derive"] }
serde_json = "1"
tempfile = "3"
thiserror = "1"
tokio = { version = "1", features = ["macros", "rt-multi-thread", "sync", "time"] }
tracing-subscriber = "0.3"
warp = { version = "0.3", features = ["tls"] }
