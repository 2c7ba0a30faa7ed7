[package]
name = "tauri_webview"
version = "0.1.0"
edition = "2021"
publish = false

[dependencies]
http = "=1.5.0"
percent-encoding = "=2.3.2"
mime = "=0.3.17"
bytes = "=1.12.1"
log = "=0.4.35"
reqwest = { version = "=0.13.5", default-features = false, features = ["rustls-no-provider"] }
rustls = { version = "=0.23.46", default-features = false, features = ["ring", "std"] }
windows = { version = "0.61", features = ["Win32_Foundation", "Win32_Graphics_Dwm", "Win32_Graphics_Gdi", "Win32_UI_Controls", "Win32_UI_HiDpi", "Win32_UI_WindowsAndMessaging"] }
cef = "156"
