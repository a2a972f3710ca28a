[package]
name = "bddkit_browser"
version = "0.1.0"
edition = "2021"
publish = false

[dependencies]
url = "2"
base64 = "0.22"
serde_json = "1"
ureq = { version = "3", default-features = false }
tungstenite = "0.27"
libc = "0.2"
