[package]
name = "btpis"
version = "0.1.0"
edition = "2021"
publish = false

[dependencies]
anyhow = "1"
chrono = "0.4"
clap = { version = "4", features = ["derive", "env"] }
csv = "1"
dirs = "*"
indexmap = "2"
indicatif = "*"
owo-colors = "4"
reqwest = { version = "0.12", default-features = false, features = ["json", "rustls-tls"] }
roxmltree = "*"
serde = { version = "1", features = ["derive"] }
serde_json = "1"
tabled = "*"
tokio = { version = "1", features = ["macros", "rt-multi-thread", "time"] }
