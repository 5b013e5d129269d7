[package]
name = "lunactl"
version = "0.1.0"
edition = "2021"
publish = false

[dependencies]
anyhow = "*"
clap = { version = "*", features = ["derive"] }
indicatif = "*"
reqwest = { version = "*", default-features = false, features = ["blocking", "json", "rustls-tls"] }
ripunzip = "*"
serde = { version = "*", features = ["derive"] }
tempfile = "*"
tracing = "*"
tracing-subscriber = { version = "*", features = ["env-filter"] }
which = "*"
