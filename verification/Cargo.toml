[package]
name = "agent_host"
version = "0.1.0"
edition = "2021"
publish = false

[dependencies]
async-trait = "0.1"
backon = "1"
chrono = { version = "0.4", features = ["serde"] }
command-group = { version = "5", features = ["with-tokio"] }
derivative = "2"
dirs = "6"
futures = "0.3"
git2 = { version = "0.20", default-features = false }
reqwest = { version = "0.12", default-features = false, features = ["json", "stream"] }
rustls = { version = "0.23", features = ["aws_lc_rs"] }
schemars = "1"
serde = { version = "1", features = ["derive"] }
serde_json = "1"
tempfile = "3"
thiserror = "2"
tokio = { version = "1", features = ["full"] }
tokio-util = { version = "0.7", features = ["io"] }
tracing = "0.1"
ts-rs = "11"
xdg = "3"
