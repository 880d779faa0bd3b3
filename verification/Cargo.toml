[package]
name = "trace"
version = "0.1.0"
edition = "2021"
publish = false

[dependencies]
anyhow = "=1.0.104"
aya = { version = "=0.13.1", features = ["async_tokio"] }
bytes = "=1.12.1"
structopt = "=0.3.26"
tokio = { version = "=1.53.2", features = ["macros", "rt-multi-thread", "signal", "sync"] }
