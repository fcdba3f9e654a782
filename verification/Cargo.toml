[package]
name = "openaddresses"
version = "0.1.0"
edition = "2021"
publish = false

[dependencies]
serde_json = "1"
url = "1.7"
serde = { version = "1", features = ["derive"] }
csv = "1"
num_cpus = "1"
structopt = "0.3"
