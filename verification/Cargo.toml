[package]
name = "showcase_studio"
version = "0.1.3"
edition = "2021"
publish = false

[dependencies]
base64 = "0.22"
chrono = "0.4"
keyring = "3"
log = "0.4"
mime_guess = "2"
once_cell = "1"
regex = "1"
reqwest = { version = "0.12", features = ["json"] }
rusqlite = { version = "0.32", features = ["bundled"] }
semver = "1"
serde = { version = "1", features = ["derive"] }
serde_json = "1"
serenity = { version = "0.12", default-features = false, features = ["http", "model", "rustls_backend"] }
tokio = { version = "1", features = ["rt", "time"] }
uuid = { version = "1", features = ["v4"] }
zip = { version = "0.6", default-features = false, features = ["deflate"] }
