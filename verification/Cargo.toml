[package]
name = "remote_desktop"
version = "0.1.0"
edition = "2021"
publish = false

[dependencies]
args-functional = "*"
captrs = "0.3"
device_query = "0.2"
enigo = "0.0.14"
minifb = "0.19"
opencv = "*"
serde = { version = "1", features = ["derive"] }
serde_derive = "1"
serde_json = "1"
