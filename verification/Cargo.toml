[package]
name = "plex_media_ingest"
version = "0.1.0"
edition = "2021"
publish = false

[dependencies]
clap = { version = "4", features = ["derive"] }
infer = "*"
inline_colorization = "*"
inquire = "*"
log = "0.4"
regex = "1"
reqwest = { version = "*", features = ["blocking", "json"] }
sanitise-file-name = "*"
serde = { version = "1", features = ["derive"] }
serde_json = "1"
stderrlog = "*"
urlencoding = "2"
walkdir = "2"
