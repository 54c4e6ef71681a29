[package]
name = "mailwind"
version = "0.1.0"
edition = "2021"
publish = false

[dependencies]
base64 = "0.22"
chrono = "0.4"
imap = "2.4"
keyring = "*"
lettre = "0.11"
mailparse = "*"
native-tls = "0.2"
open = "5"
reqwest = { version = "0.12", features = ["blocking", "json"] }
rusqlite = { version = "*", features = ["bundled"] }
serde = { version = "1", features = ["derive"] }
serde_json = "1"
url = "2"
urlencoding = "2"
uuid = { version = "1", features = ["v4"] }
