[package]
name = "moonleaf"
version = "0.1.0"
edition = "2021"
publish = false

[dependencies]
rand = "=0.9.5"
rand_distr = "=0.5.1"
serde = { version = "=1.0.229", features = ["derive"] }
axum = "=0.8.9"
tokio = { version = "=1.54.1", features = ["macros", "rt-multi-thread", "net", "signal", "time", "sync"] }
tokio-stream = "=0.1.19"
tracing = "=0.1.44"
tracing-subscriber = { version = "=0.3.23", features = ["env-filter"] }
clap = { version = "=4.6.7", features = ["derive"] }
