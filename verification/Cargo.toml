[package]
name = "leaf"
version = "0.1.0"
edition = "2021"
publish = false

[dependencies]
anyhow = "*"
clap = "*"
colored = "*"
dirs = "*"
flate2 = "*"
futures-util = "*"
indicatif = "*"
reqwest = { version = "*", default-features = false, features = ["stream"] }
serde = { version = "*", features = ["derive"] }
serde_json = "*"
tar = "*"
tokio = { version = "*", features = ["full"] }
xz2 = { version = "*", features = ["static"] }
zip = "*"
