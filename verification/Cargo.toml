[package]
name = "aldis"
version = "0.2.3"
edition = "2021"
publish = false

[dependencies]
anyhow = "=1.0.104"
clap = { version = "=4.6.7", features = ["derive"] }
dfu-core = "=0.11.1"
dfu-nusb = "=0.2.0"
nusb = { version = "=0.2.9", features = ["tokio"] }
picoboot = "=0.3.0"
serde = { version = "=1.0.229", features = ["derive"] }
serde_json = "=1.0.154"
serialport = { version = "=4.10.1", default-features = false }
sha1 = "=0.10.7"
socketcan = { version = "=3.6.2", default-features = false }
tempfile = "=3.27.0"
tokio = { version = "=1.54.1", features = ["rt", "net"] }
tracing = "=0.1.44"
tracing-appender = "=0.2.5"
tracing-subscriber = { version = "=0.3.23", features = ["env-filter"] }
ureq = "=3.5.1"
