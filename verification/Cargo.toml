[package]
name = "aos-statshammer"
version = "0.1.0"
edition = "2021"
publish = false

[dependencies]
rand = "0.8"
itertools = "0.10"
num-traits = "0.2"
serde = { version = "1", features = ["derive"] }
serde_json = "1"
toml = "0.8"
clap = { version = "4", features = ["derive"] }
anyhow = "1"
log = "0.4"
simple_logger = "4"
axum = "0.5"
hyper = "0.14"
tokio = { version = "1", features = ["macros", "rt-multi-thread"] }
tower = "0.4"
tower-http = { version = "0.3", features = ["catch-panic", "compression-gzip", "trace"] }
tracing-subscriber = "0.3"
