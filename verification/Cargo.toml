[package]
name = "serialtool"
version = "0.1.0"
edition = "2021"
publish = false

[dependencies]
chrono = "0.4"
dirs = "*"
futures = "0.3"
iced = { version = "*", default-features = false, features = ["tokio", "svg", "tiny-skia", "x11"] }
image = { version = "*", default-features = false, features = ["png"] }
libc = "0.2"
serde = { version = "1", features = ["derive"] }
serde_json = "1"
serialport = { version = "*", default-features = false }
tempfile = "3"
tokio = { version = "1", features = ["rt", "time"] }
winreg = "*"
