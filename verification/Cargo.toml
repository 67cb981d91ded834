[package]
name = "tauri_core"
version = "0.1.0"
edition = "2021"
publish = false

[dependencies]
glob = "=0.3.4"
urlpattern = "=0.3.0"
regex = "=1.13.1"
url = "=2.5.8"
percent-encoding = "=2.3.2"
getrandom = "=0.3.4"
serde = { version = "=1.0.229", features = ["derive"] }
serde_json = "=1.0.154"
http-range = "=0.1.6"
image = { version = "0.25", default-features = false, features = ["png", "ico"] }
mime = "0.3"
dunce = "1"
uuid = { version = "1", features = ["v4"] }
