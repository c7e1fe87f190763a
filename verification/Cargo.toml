[package]
name = "bayard"
version = "0.1.0"
edition = "2021"
publish = false

[dependencies]
regex = "=1.13.1"
rand = "=0.8.8"
time = "=0.3.55"
serde = { version = "=1.0.229", features = ["derive"] }
serde_json = "=1.0.154"
anyhow = "=1.0.104"
thiserror = "=1.0.69"
bytes = "=1.12.1"
tantivy = "=0.18.1"
foca = { version = "=0.7.0", features = ["postcard-codec"] }
tokio = { version = "=1.54.1", features = ["full"] }
clap = { version = "=3.2.25", features = ["derive"] }
tracing = "=0.1.44"
tracing-subscriber = "=0.3.23"
notify = "5"
