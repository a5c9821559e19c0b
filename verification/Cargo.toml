[package]
name = "paste_store"
version = "0.1.0"
edition = "2021"
publish = false

[dependencies]
base64 = "0.13"
chrono = "0.4"
htmlescape = "0.3"
iron = "0.6"
rand = "0.4"
router = "0.6"
