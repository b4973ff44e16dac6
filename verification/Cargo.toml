[package]
name = "wake"
version = "0.4.1"
edition = "2021"
publish = false

[dependencies]
chrono = { version = "=0.4.45", features = ["serde"] }
crossterm = "=0.29.0"
serde = { version = "1", features = ["derive"] }
signal-hook = "=0.3.18"
sysinfo = "=0.39.6"
windows-sys = { version = "=0.61.2", features = ["Win32_Foundation", "Win32_Storage_FileSystem", "Win32_System_Power", "Win32_System_Registry", "Win32_System_Threading", "Win32_UI_Shell", "Win32_UI_WindowsAndMessaging"] }
