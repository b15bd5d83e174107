[package]
name = "greentic-ext-runtime"
version = "0.1.0"
edition = "2021"
publish = false

[dependencies]
url = "2"
semver = "1"
sha2 = "0.10"
serde = { version = "1", features = ["derive"] }
serde_json = "1"
anyhow = "1"
thiserror = "2"
tracing = "0.1"
directories = "*"
arc-swap = "1"
tokio = { version = "1", features = ["sync"] }
notify = "*"
notify-debouncer-full = "*"
reqwest = { version = "0.12", default-features = false, features = ["blocking", "json", "rustls-tls"] }
async-trait = "*"
greentic-extension-sdk-contract = "*"
greentic-extension-sdk-registry = "*"
