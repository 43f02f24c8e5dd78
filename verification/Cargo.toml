[package]
name = "razer_control"
version = "0.1.0"
edition = "2021"
publish = false

[dependencies]
lazy_static = "=1.5.1"
log = "=0.4.35"
serde = { version = "=1.0.229", features = ["derive"] }
sysinfo = { version = "=0.32.1", default-features = false, features = ["system", "component"] }
windows = { version = "=0.58.0", features = ["Win32_Foundation", "Win32_Security", "Win32_System_Performance", "Win32_System_Registry", "Win32_Storage_FileSystem", "Win32_System_IO", "Win32_System_Power", "Win32_Devices_DeviceAndDriverInstallation"] }
