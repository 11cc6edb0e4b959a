[package]
name = "app_launcher"
version = "0.1.0"
edition = "2021"
publish = false

[dependencies]
plist = "1"
shlex = "1"
serde = { version = "1", features = ["derive"] }
serde_json = "1"
extism-pdk = "1"
