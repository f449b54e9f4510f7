[package]
name = "twitter_cli"
version = "1.0.0"
edition = "2021"
publish = false

[dependencies]
clap = { version = "=4.6.7", features = ["derive"] }
indexmap = { version = "=2.14.2", features = ["serde"] }
rpassword = "=7.5.4"
serde = { version = "=1.0.229", features = ["derive"] }
serde_json = { version = "=1.0.154", features = ["preserve_order"] }
serde_norway = "=0.9.42"
ureq = "=3.5.1"
windows-sys = { version = "=0.59.0", features = ["Win32_Foundation", "Win32_Security_Cryptography"] }
