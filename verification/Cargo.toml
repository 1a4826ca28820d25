[package]
name = "deep_search"
version = "0.1.0"
edition = "2021"
publish = false

[dependencies]
rayon = "1"
crossbeam-channel = "0.5"
image = { version = "0.25", default-features = false, features = ["ico"] }
windows = { version = "0.58", features = ["Win32_Foundation", "Win32_Security", "Win32_Storage_FileSystem", "Win32_System_IO", "Win32_System_Ioctl", "Win32_UI_Shell", "Win32_UI_WindowsAndMessaging"] }
