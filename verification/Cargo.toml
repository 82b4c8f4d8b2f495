[package]
name = "vibe_easytier_service"
version = "0.1.0"
edition = "2021"
publish = false

[dependencies]
url = "=2.5.8"
base64 = "=0.22.1"
serde = { version = "=1.0.229", features = ["derive"] }
serde_json = "=1.0.154"
toml = "=0.8.23"
thiserror = "=2.0.21"
ctrlc = "=3.5.2"
windows-sys = { version = "=0.59.0", features = ["Win32_Foundation", "Win32_Security", "Win32_Security_Cryptography", "Win32_NetworkManagement_IpHelper", "Win32_NetworkManagement_Ndis", "Win32_Networking_WinSock", "Win32_System_WindowsProgramming", "Win32_System_Pipes", "Win32_System_Services", "Win32_Storage_FileSystem"] }
windows-service = "=0.7.0"
chrono = { version = "0.4", default-features = false, features = ["std", "clock"] }
