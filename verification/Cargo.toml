[package]
name = "winsoftvol"
version = "0.1.0"
edition = "2021"
publish = false

[dependencies]
anyhow = "=1.0.104"
serde = { version = "=1.0.229", features = ["derive"] }
toml = "=0.8.2"
winreg = "=0.52.0"
windows = { version = "=0.51.1", features = ["implement", "Win32_Foundation", "Win32_Media_Audio", "Win32_Media_Audio_Endpoints", "Win32_System_Com", "Win32_System_Com_StructuredStorage", "Win32_System_Variant", "Win32_UI_WindowsAndMessaging", "Win32_UI_Shell_PropertiesSystem", "Win32_Networking_WinHttp", "Win32_UI_Controls", "Win32_UI_Shell", "Win32_System_LibraryLoader", "Win32_System_ApplicationInstallationAndServicing", "Data_Xml_Dom", "UI_Notifications", "Foundation"] }
image = { version = "=0.24.9", default-features = false, features = ["png"] }
muda = "=0.13.5"
tray-icon = "=0.14.3"
