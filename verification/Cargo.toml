[package]
name = "keyd_host"
version = "0.1.0"
edition = "2021"
publish = false

[dependencies]
env_logger = "=0.11.11"
hidapi = { version = "=2.6.7", default-features = false, features = ["linux-native-basic-udev"] }
log = "=0.4.34"
tokio = { version = "=1.54.1", features = ["full"] }
windows = { version = "=0.58.0", features = ["Win32_Media_Audio", "Win32_Media_Audio_Endpoints", "Win32_System_Com"] }
windows-core = "=0.58.0"
