[package]
name = "prvw"
version = "0.1.0"
edition = "2021"
publish = false

[dependencies]
lensfun = "=0.7.0"
log = "=0.4.35"
moxcms = { version = "=0.9.1", features = ["in_place"] }
multiversion = "=0.9.2"
objc2 = "=0.6.5"
objc2-app-kit = "=0.3.2"
objc2-foundation = "=0.3.2"
rawler = "=0.8.0"
rayon = "=1.12.0"
windows = { version = "=0.62.2", features = ["Win32_Foundation", "Win32_Graphics_Gdi", "Win32_Storage_FileSystem", "Win32_System_Com", "Win32_System_Diagnostics_Debug", "Win32_System_LibraryLoader", "Win32_UI_ColorSystem", "Win32_UI_Controls", "Win32_UI_HiDpi", "Win32_UI_Input_KeyboardAndMouse", "Win32_UI_Shell", "Win32_UI_WindowsAndMessaging"] }
winit = "=0.30.13"
zstd = "=0.14.3"
