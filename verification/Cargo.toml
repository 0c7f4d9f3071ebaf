[package]
name = "installed_apps"
version = "0.1.0"
edition = "2021"
publish = false

[dependencies]
lnk = "*"
plist = "*"
serde = { version = "*", features = ["derive"] }
winreg = "*"
