[package]
name = "dweb-cli"
version = "0.1.0"
edition = "2021"
publish = false

[dependencies]
hex = "0.4"
blsttc = "8"
actix-web = "4"
clap = { version = "4", features = ["derive"] }
serde = { version = "1", features = ["derive"] }
serde_json = "1"
color-eyre = "0.6"
mime = "0.3"
open = "5"
chrono = "0.4"
port_check = "0.2"
