[package]
name = "archivist"
version = "0.1.0"
edition = "2021"
publish = false

[dependencies]
mime_guess = "2"
pulldown-cmark = "*"
chrono = "0.4"
percent-encoding = "2"
serde = { version = "1", features = ["derive"] }
toml = "*"
