[package]
name = "orbit_notes"
version = "0.1.0"
edition = "2021"
publish = false

[dependencies]
handlebars = "4"
pulldown-cmark = { version = "0.9", default-features = false }
serde = { version = "1", features = ["derive"] }
serde_json = "1"
walkdir = "2"
