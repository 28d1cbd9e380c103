[package]
name = "gnostr-query"
version = "0.1.0"
edition = "2021"
publish = false

[dependencies]
clap = "4"
futures = "0.3"
log = "0.4"
ratatui = "*"
serde = "1"
serde_json = "1"
shatter = "*"
tokio = { version = "1", features = ["full"] }
tokio-tungstenite = { version = "*", features = ["native-tls"] }
url = "2"
