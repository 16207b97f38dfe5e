[package]
name = "right_panel"
version = "0.1.0"
edition = "2021"
publish = false

[dependencies]
serde = { version = "=1.0.229", features = ["derive"] }
serde_json = "=1.0.154"
zip = "=9.2.2"
arboard = "=3.7.0"
tao = "=0.37.2"
wry = "=0.57.1"
tray-icon = "=0.26.1"
gtk = "=0.18.2"
png = "=0.18.1"
windows-sys = { version = "=0.61.2", features = ["Win32_Foundation", "Win32_Graphics_Gdi", "Win32_System_DataExchange", "Win32_System_Diagnostics_Debug", "Win32_System_Power", "Win32_System_Registry", "Win32_System_Threading", "Win32_System_Shutdown", "Win32_UI_Input_KeyboardAndMouse", "Win32_UI_WindowsAndMessaging", "Win32_Storage_FileSystem", "Win32_UI_Controls", "Win32_UI_Controls_Dialogs", "Win32_UI_Shell"] }
