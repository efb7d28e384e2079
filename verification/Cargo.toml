[package]
name = "clickpack_db"
version = "0.1.0"
edition = "2021"
publish = false

[dependencies]
egui = { version = "*", default-features = false }
egui_extras = { version = "*", default-features = false }
fuzzy-matcher = "0.3"
humansize = "2"
indexmap = { version = "2", features = ["serde"] }
log = "0.4"
open = "5"
serde = { version = "1", features = ["derive"] }
serde_json = "1"
urlencoding = "2"
zip-extract = "*"
