[package]
name = "rcontest"
version = "0.1.0"
edition = "2021"
publish = false

[dependencies]
anyhow = "=1.0.104"
async-compression = { version = "=0.4.52", features = ["gzip", "futures-io"] }
axum = "=0.6.20"
clap = { version = "=4.6.7", features = ["derive"] }
env_logger = "=0.11.11"
futures = "=0.3.34"
html_to_markdown = "=0.1.0"
log = "=0.4.35"
rand = "=0.9.5"
ratex-font = "=0.1.15"
ratex-katex-fonts = "=0.1.15"
ratex-layout = "=0.1.15"
ratex-parser = "=0.1.15"
ratex-types = "=0.1.15"
reqwest = { version = "=0.12.28", default-features = false, features = ["rustls-tls"] }
scraper = "=0.29.0"
serde = { version = "=1.0.229", features = ["derive"] }
serde_json = "=1.0.154"
smol = "=2.0.2"
time = { version = "=0.3.55", features = ["parsing", "formatting", "macros"] }
tokio = { version = "=1.54.1", features = ["full"] }
toml = "=0.8.23"
uuid = { version = "=1.29.0", features = ["v4"] }
