[package]
name = "vibealong"
version = "0.1.0"
edition = "2021"
publish = false

[dependencies]
chrono = { version = "0.4", default-features = false, features = ["std"] }
clap = { version = "4", default-features = false, features = ["std", "derive", "help", "usage"] }
ctrlc = "3"
eframe = { version = "0.31", default-features = false, features = ["glow", "x11"] }
httpdate = "1"
image = { version = "0.25", default-features = false, features = ["png"] }
keyring = { version = "3", default-features = false }
mdns-sd = { version = "0.13", default-features = false }
reqwest = { version = "0.12", default-features = false, features = ["blocking", "json"] }
rusqlite = { version = "0.32", default-features = false, features = ["bundled"] }
serde = { version = "1", features = ["derive"] }
serde_json = "1"
single-instance = "0.3"
tungstenite = "0.24"
url = "2"
uuid = { version = "1", features = ["v4"] }
webbrowser = "1"
winreg = "0.55"
