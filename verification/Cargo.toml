[package]
name = "mineshare"
version = "0.1.0"
edition = "2021"
publish = false

[dependencies]
arboard = "3"
clap = { version = "4", features = ["derive"] }
flume = "0.11"
governor = "0.10"
jiff = "0.2"
postcard = "1"
rand = "0.9"
ratatui = "0.30"
serde = { version = "1", features = ["derive"] }
thiserror = "2"
tokio = { version = "1", features = ["full"] }
tokio-util = "0.7"
tracing = "0.1"
tracing-subscriber = "0.3"
