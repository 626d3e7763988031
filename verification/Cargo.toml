[package]
name = "arc_companion"
version = "0.1.0"
edition = "2021"
publish = false

[dependencies]
moka = { version = "0.12", features = ["sync"] }
arc_api_rs = "0.2"
dioxus = { version = "0.7", features = ["router"] }
redb = "4"
serde = { version = "1", features = ["derive"] }
serde_json = "1"
dirs = "6"
tokio = { version = "1", features = ["rt", "rt-multi-thread", "time"] }
reqwest = "0.13"
webpki-root-certs = "1"
