[package]
name = "po_translator"
version = "0.1.0"
edition = "2021"
publish = false

[dependencies]
serde_json = "*"
polib = "*"
reqwest = { version = "*", default-features = false, features = ["blocking", "json"] }
