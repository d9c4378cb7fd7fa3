[package]
name = "micropub_rs"
version = "0.1.0"
edition = "2021"
publish = false

[dependencies]
serde_json = "1"
url = "2"
mime = "0.3"
markdown = "1"
serde = { version = "1", features = ["derive"] }
anyhow = "1"
chrono = "0.4"
urlencoding = "2"
log = "0.4"
toml = "0.8"
bytes = "1"
http = "1"
axum = { version = "0.7", features = ["multipart"] }
tokio = { version = "1", features = ["full"] }
reqwest = { version = "0.12", default-features = false, features = ["json"] }
diesel = { version = "2", features = ["sqlite", "r2d2"] }
libsqlite3-sys = { version = "0.30", features = ["bundled"] }
tera = { version = "1", default-features = false }
