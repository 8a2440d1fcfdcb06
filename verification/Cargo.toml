[package]
name = "blob_dl"
version = "0.1.0"
edition = "2021"
publish = false

[dependencies]
sdset = "*"
serde = { version = "1", features = ["derive"] }
serde_json = "1"
dialoguer = "*"
colored = "*"
execute = "*"
spinoff = "*"
which = "*"
clap = "*"
url = "*"
