[package]
name = "dynwinrt"
version = "0.1.0"
edition = "2021"
publish = false

[dependencies]
serde = { version = "1", features = ["derive"] }
serde_json = "1"
windows-core = "0.61"
windows = { version = "0.61", features = ["Win32_Foundation", "Win32_System_LibraryLoader", "Win32_System_Registry", "Win32_System_Services", "Win32_Security_Credentials", "Win32_System_Com", "Win32_System_Memory", "Win32_System_IO", "Win32_Storage_FileSystem", "Win32_System_Threading", "Win32_System_WindowsProgramming", "Wdk_Storage_FileSystem", "Wdk_System_SystemServices", "Win32_Storage_Packaging_Appx", "ApplicationModel"] }
libffi = "*"
