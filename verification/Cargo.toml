[package]
name = "stitch_pty"
version = "0.7.6"
edition = "2021"
publish = false

[dependencies]
async-trait = "=0.1.92"
libc = "=0.2.191"
nix = { version = "=0.31.3", features = ["fs", "ioctl", "poll", "process", "signal", "term"] }
parking_lot = "=0.12.5"
pyo3 = { version = "=0.30.1", features = ["abi3-py39", "extension-module"] }
pyo3-async-runtimes = { version = "=0.30.0", features = ["tokio-runtime"] }
thiserror = "=2.0.21"
tokio = { version = "=1.54.1", features = ["io-util", "macros", "net", "rt", "rt-multi-thread", "sync", "time"] }
unicode-width = "=0.2.3"
windows = { version = "=0.59.0", features = ["Win32_Foundation", "Win32_Security", "Win32_Storage_FileSystem", "Win32_System_Console", "Win32_System_LibraryLoader", "Win32_System_Pipes", "Win32_System_Threading", "Win32_UI_WindowsAndMessaging"] }
