[package]
name = "cheese"
version = "0.1.0"
edition = "2021"
publish = false

[dependencies]
capstone = "0.12"
windows = { version = "0.54", features = ["Win32_Foundation", "Win32_Security", "Win32_System_Console", "Win32_System_LibraryLoader", "Win32_System_SystemServices", "Win32_System_Threading", "Win32_System_Memory", "Win32_System_Diagnostics_Debug", "Win32_System_Diagnostics_ToolHelp", "Win32_System_ProcessStatus", "Win32_UI_WindowsAndMessaging", "Win32_UI_Input_KeyboardAndMouse"] }
anyhow = "1"
thiserror = "1"
log = "0.4"
env_logger = "0.11"
ansi_term = "0.12"
