[package]
name = "rustypod"
version = "0.1.0"
edition = "2021"
publish = false

[dependencies]
anyhow = "*"
async-std = "*"
chrono = "*"
directories = "*"
env_logger = "*"
log = "*"
minreq = "*"
rss = "*"
sqlx = { version = "*", default-features = false, features = ["runtime-async-std", "sqlite", "migrate"] }
structopt = "*"
