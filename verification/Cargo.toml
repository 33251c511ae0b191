[package]
name = "rokio"
version = "0.1.0"
edition = "2021"
publish = false

[dependencies]
aes-gcm = "0.10"
base64 = "0.22"
pbkdf2 = "0.12"
sha2 = "0.10"
rand = "0.8"
uuid = { version = "1", features = ["v4"] }
chrono = "0.4"
serde = { version = "1", features = ["derive"] }
serde_json = "1"
log = "0.4"
dirs = "*"
urlencoding = "2"
mac_address2 = "*"
reqwest = { version = "0.12", features = ["json"] }
tokio = { version = "1", features = ["sync", "macros", "time", "rt"] }
winreg = "*"
windows-sys = { version = "*", features = ["Win32_Foundation", "Win32_System_Diagnostics_ToolHelp", "Win32_System_Threading"] }
