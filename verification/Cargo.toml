[package]
name = "crmonitor"
version = "0.1.0"
edition = "2021"
publish = false

[dependencies]
cfg-if = "1"
image = { version = "0.25", default-features = false }
local-ip-address = "0.6"
procfs = { version = "0.16", default-features = false }
serde = { version = "1", features = ["derive"] }
serialport = { version = "=4.3.0", default-features = false }
sysinfo = { version = "0.30", default-features = false }
tray-icon = "0.13"
windows-sys = { version = "0.52", features = ["Win32_Foundation", "Win32_Graphics_Gdi", "Win32_NetworkManagement_IpHelper", "Win32_NetworkManagement_Ndis", "Win32_System_LibraryLoader", "Win32_UI_WindowsAndMessaging"] }
