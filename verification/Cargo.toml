[package]
name = "cf_downloader"
version = "0.1.0"
edition = "2021"
publish = false

[dependencies]
base64 = "0.13"
flate2 = "1"
rand = "0.8"
serde = { version = "1", features = ["derive"] }
serde_yaml = "0.9"
tokio = { version = "1", features = ["rt", "time", "macros"] }
futures = "0.3"
reqwest = { version = "0.11", default-features = false, features = ["json", "cookies"] }
regex = "1"
handlebars = "4"
termcolor = "1"
pretty_env_logger = "0.4"
clap = "3"
