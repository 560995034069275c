[package]
name = "gip"
version = "0.1.0"
edition = "2021"
publish = false

[dependencies]
serde_json = "1"
rand = "0.8"
chrono = { version = "0.4", default-features = false, features = ["clock", "std"] }
reqwest = { version = "0.11", default-features = false, features = ["blocking"] }
trust-dns-resolver = "0.20"
structopt = "0.3"
dirs = "4"
