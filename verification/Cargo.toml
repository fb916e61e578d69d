[package]
name = "fluvio_control"
version = "0.1.0"
edition = "2021"
publish = false
rust-version = "1.95"

[dependencies]
anyhow = "1"
async-channel = "*"
async-lock = "*"
clap = { version = "4", features = ["derive", "env"] }
fastrace = "*"
fastrace-opentelemetry = "*"
fluvio-future = { version = "*", features = ["task", "timer", "net"] }
fluvio-protocol = "=0.50.1"
fluvio-types = { version = "=0.50.1", features = ["events"] }
futures-util = "0.3"
globset = "=0.4.21"
include_dir = "*"
k8s-openapi = { version = "*", features = ["latest"] }
kube = { version = "*", features = ["runtime", "derive"] }
kstring = "=2.0.2"
async-trait = "*"
liquid = "=0.26.11"
liquid-core = "=0.26.11"
opentelemetry = "*"
opentelemetry-otlp = { version = "*", features = ["grpc-tonic"] }
opentelemetry_sdk = "*"
regex = "=1.13.1"
rustls = "0.23"
schemars = "*"
serde = { version = "1", features = ["derive"] }
serde_json = "1"
tokio = { version = "1", features = ["rt-multi-thread", "macros", "net", "io-util", "time"] }
toml = "*"
tracing = "0.1"
tracing-subscriber = { version = "0.3", features = ["env-filter"] }
