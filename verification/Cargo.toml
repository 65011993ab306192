[package]
name = "katazome"
version = "0.1.0"
edition = "2021"
publish = false

[dependencies]
serde = { version = "1", features = ["derive"] }
toml = "*"
tera = "1"
walkdir = "2"
plist = "1"
thiserror = "*"
clap = { version = "4", features = ["derive"] }
