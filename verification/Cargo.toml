[package]
name = "portless"
version = "0.1.0"
edition = "2021"
publish = false

[dependencies]
dashmap = "6"
sha2 = "=0.10.9"
base64 = "=0.22.1"
chrono = "=0.4.45"
tokio = { version = "=1.54.1", features = ["full"] }
clap = { version = "=4.6.7", features = ["derive", "env"] }
serde = { version = "=1.0.229", features = ["derive"] }
serde_json = "=1.0.154"
serde_yaml = "=0.9.34+deprecated"
hyper = { version = "=1.12.0", features = ["full"] }
hyper-util = { version = "=0.1.21", features = ["full"] }
http = "=1.5.0"
http-body-util = "=0.1.5"
bytes = "=1.12.1"
rustls = { version = "=0.23.46", default-features = false, features = ["ring", "std", "tls12", "logging"] }
tokio-rustls = { version = "=0.26.6", default-features = false, features = ["ring", "tls12", "logging"] }
rustls-pemfile = "=2.2.0"
rustls-pki-types = "=1.15.1"
rcgen = "=0.14.10"
time = "=0.3.55"
dirs = "=6.0.0"
is-terminal = "=0.4.17"
sysinfo = "=0.35.2"
tracing = "=0.1.44"
tracing-subscriber = { version = "=0.3.23", features = ["env-filter"] }
futures = "=0.3.34"
tempfile = "=3.27.0"
which = "=7.0.3"
hostname = "=0.4.2"
