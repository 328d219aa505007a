[package]
name = "adona"
version = "0.1.0"
edition = "2021"
publish = false

[dependencies]
chrono = "=0.4.45"
gtk = "0.9"
json = "=0.12.4"
regex = "=1.13.1"
relm = "0.21"
relm-derive = "0.21"
reqwest = { version = "=0.12.28", features = ["blocking"] }
serde = { version = "=1.0.229", features = ["derive"] }
serde_json = "=1.0.154"
webbrowser = "=1.2.5"
zip = { version = "=9.0.5", default-features = false, features = ["deflate"] }
