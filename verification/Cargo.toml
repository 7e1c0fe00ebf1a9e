[package]
name = "libfrizz"
version = "0.1.0"
edition = "2021"
publish = false

[dependencies]
regex = "=1.13.1"
serde_json = "=1.0.154"
jql = "=2.9.5"
chrono = "=0.4.45"
home = "=0.5.12"
reqwest = { version = "=0.11.27", default-features = false, features = ["stream", "rustls-tls"] }
tokio = { version = "=1.54.1", features = ["full"] }
futures = "=0.3.34"
indicatif = "=0.16.2"
console = "=0.16.6"
ansi_term = "=0.12.1"
clap = "=3.2.25"
log = "=0.4.35"
simple_logger = "=2.3.0"
dprint-core = "=0.75.0"
