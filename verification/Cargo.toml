[package]
name = "global_env"
version = "0.1.0"
edition = "2021"
publish = false

[dependencies]
winreg = "=0.56.0"
windows = { version = "=0.58.0", features = ["Win32_Foundation", "Win32_UI_WindowsAndMessaging"] }
