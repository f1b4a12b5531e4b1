[package]
name = "create_kml_file"
version = "0.1.0"
edition = "2021"
publish = false

[dependencies]
anyhow = "*"
clap = "*"
geo = "*"
tracing = "*"
tracing-subscriber = { version = "*", features = ["env-filter"] }
