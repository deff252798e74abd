[package]
name = "is-tibo-happy"
version = "0.2.0"
edition = "2021"
publish = false

[dependencies]
chrono = "0.4"
chrono-tz = "0.10"
iana-time-zone = "0.1"
regex = "1"
semver = "1"
sha2 = "0.10"
serde_json = "1"
ureq = { version = "2", features = ["json"] }
tungstenite = "*"
ctrlc = "3"
wait-timeout = "0.2"
