[package]
name = "post_build_postgres"
version = "0.1.0"
edition = "2021"
publish = false

[dependencies]
anyhow = "1"
chrono = "0.4"
humantime = "2"
postgres = "0.19"
serde = { version = "1", features = ["derive"] }
serde_json = "1"
structopt = "0.3"
systemd = "*"
ureq = "2"
