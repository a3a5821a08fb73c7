[package]
name = "super_orchestrator"
version = "0.17.2"
edition = "2021"
publish = false

[dependencies]
bollard = "0.18"
bstr = "1"
clap = { version = "4", features = ["derive"] }
ctrlc = "3"
env_logger = "0.11"
futures = "0.3"
log = "0.4"
nix = { version = "0.30", features = ["signal"] }
owo-colors = "4"
postcard = { version = "1", features = ["use-std"] }
ron = "0.8"
serde = { version = "1", features = ["derive"] }
serde_json = "1"
sha3 = "0.10"
stacked_errors = "0.7"
tar = "0.4"
thiserror = "1"
tokio = { version = "1", features = ["full"] }
tracing = "0.1"
tracing-subscriber = "0.3"
uuid = { version = "1", features = ["v4", "serde"] }
