[package]
name = "squid_downloader"
version = "0.1.0"
edition = "2021"
publish = false

[dependencies]
tokio = { version = "=1.54.1", features = ["full"] }
reqwest = { version = "=0.12.28", features = ["stream"] }
serde = { version = "=1.0.229", features = ["derive"] }
serde_json = "=1.0.154"
base64 = "=0.22.1"
regex = "=1.13.1"
strsim = "=0.11.1"
sanitize-filename = "=0.6.0"
url = "=2.5.8"
chrono = "=0.4.45"
colored = "=2.2.0"
clap = { version = "=4.6.7", features = ["derive"] }
indicatif = "=0.17.11"
tabled = "=0.16.0"
lofty = "=0.22.4"
futures = "=0.3.34"
num_cpus = "=1.17.0"
thiserror = "=1.0.69"
async-trait = "=0.1.92"
csv = "=1.4.0"
