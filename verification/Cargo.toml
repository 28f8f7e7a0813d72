[package]
name = "cleverclown"
version = "0.1.0"
edition = "2021"
publish = false

[dependencies]
anyhow = "1"
async-trait = "0.1"
axum = "0.7"
bollard = { version = "0.17", features = ["buildkit"] }
bytes = "1"
config = { version = "0.14", default-features = false }
env_logger = "0.11"
flate2 = "1"
futures = "0.3"
git2 = { version = "0.19", default-features = false }
itertools = "0.13"
k8s-openapi = { version = "0.22", features = ["latest"] }
kube = "0.93"
log = "0.4"
map-macro = "0.3"
rand = "0.8"
serde = { version = "1", features = ["derive"] }
serde_derive = "1"
serde_json = "1"
split-iter = "0.1"
tar = "0.4"
tokio = { version = "1", features = ["macros", "rt-multi-thread", "net"] }
