[package]
name = "cloudflare-ddns-update"
version = "0.1.0"
edition = "2021"
publish = false

[dependencies]
cloudflare = "0.6"
exitfailure = "0.5"
failure = "0.1"
reqwest = { version = "0.10", features = ["blocking"] }
serde = { version = "1", features = ["derive"] }
serde_json = { version = "1", features = ["raw_value"] }
serde_with = "1"
structopt = "0.3"
