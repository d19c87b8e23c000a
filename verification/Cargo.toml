[package]
name = "rail_extract"
version = "0.1.0"
edition = "2021"
publish = false

[dependencies]
anyhow = "1"
argh = "0.1"
bincode = "1.3"
futures-util = "0.3"
geo = "0.28"
indicatif = { version = "0.17", features = ["rayon"] }
md5 = "0.7"
osmpbfreader = "0.16"
printpdf = "0.7"
rayon = "1"
reqwest = { version = "0.11", default-features = false, features = ["stream", "rustls-tls"] }
serde = { version = "1", features = ["derive"] }
tokio = { version = "1", features = ["rt-multi-thread", "macros", "fs", "io-util"] }
toml = "0.8"
