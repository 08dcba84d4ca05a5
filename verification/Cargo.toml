[package]
name = "dev_tools"
version = "0.1.0"
edition = "2021"
publish = false

[dependencies]
regex = "1"
serde = { version = "1", features = ["derive"] }
serde_json = "1"
dirs = "*"
once_cell = "1"
sha2 = "*"
md-5 = "*"
thiserror = "*"
futures-util = "0.3"
tokio = { version = "1", features = ["fs", "process", "time", "io-util", "rt", "net", "sync"] }
reqwest = { version = "*", default-features = false, features = ["json", "stream"] }
windows = { version = "*", features = ["Win32_Foundation", "Win32_System_Registry", "Win32_System_Services", "Win32_UI_WindowsAndMessaging"] }
check_elevation = "*"
