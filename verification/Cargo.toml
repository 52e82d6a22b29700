[package]
name = "rsa_core"
version = "0.1.0"
edition = "2021"
publish = false

[dependencies]
num = "0.4"
bigdecimal = "0.4"
serde = { version = "1", features = ["derive"] }
actix-web = { version = "4", default-features = false }
log = "0.4"
druid = "0.8"
