[package]
name = "dnssrc"
version = "0.1.0"
edition = "2021"
publish = false

[dependencies]
rand = "0.8"
anyhow = "1"
clap = { version = "4", features = ["derive", "env"] }
daemonize = "0.5"
privdrop = "0.5"
rustls = "0.21"
rustls-pemfile = "1"
tokio = { version = "1", features = ["net", "rt-multi-thread", "macros"] }
tracing-subscriber = "0.3"
trust-dns-server = "0.23"
async-trait = "0.1"
