[package]
name = "udpfwd"
version = "0.1.0"
edition = "2021"
publish = false

[dependencies]
clap = { version = "4", features = ["derive"] }
native-windows-gui = "1"
native-windows-derive = "1"
windows-sys = { version = "0.59", features = ["Win32_Foundation", "Win32_UI_WindowsAndMessaging", "Win32_System_Power", "Win32_UI_Shell"] }
winreg = "*"
