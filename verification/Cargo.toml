[package]
name = "wechat_cleaner"
version = "0.1.0"
edition = "2021"
publish = false

[dependencies]
regex = "*"
md-5 = "*"
serde = { version = "*", features = ["derive"] }
serde_json = "*"
toml = "*"
clap = { version = "*", features = ["derive"] }
indicatif = "*"
walkdir = "*"
dirs = "*"
log = "*"
rayon = "*"
