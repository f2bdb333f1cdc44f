[package]
name = "rbx-switch"
version = "0.1.0"
edition = "2021"
publish = false

[dependencies]
anyhow = "1"
clap = { version = "4", features = ["derive"] }
colored = "2"
dialoguer = "0.11"
dirs = "5"
serde = { version = "1", features = ["derive"] }
serde_json = "1"
toml = "0.8"
windows-sys = { version = "0.52", features = ["Win32_Foundation", "Win32_Security_Credentials"] }
winreg = "0.52"
