[package]
name = "axum_harness"
version = "0.1.0"
edition = "2021"
publish = false

[dependencies]
regex = "1"
serde = { version = "1", features = ["derive"] }
serde_json = "1"
serde_yaml = "0.9"
uuid = { version = "1", features = ["v4"] }
rand = "0.8"
anyhow = "1"
clap = { version = "4", features = ["derive"] }
thiserror = "1"
chrono = "0.4"
toml = "0.8"
walkdir = "2"
tempfile = "3"
ctrlc = "3"
reqwest = { version = "0.12", default-features = false, features = ["blocking"] }
flate2 = "1"
tar = "0.4"
zip = { version = "2", default-features = false, features = ["deflate"] }
xshell = "0.2"
async-trait = "0.1"
