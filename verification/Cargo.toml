[package]
name = "portscan"
version = "0.1.0"
edition = "2021"
publish = false

[dependencies]
clap = { version = "*", features = ["derive"] }
colored = "*"
futures = "*"
indicatif = "*"
thiserror = "*"
tokio = { version = "*", features = ["full"] }
trust-dns-resolver = "*"
