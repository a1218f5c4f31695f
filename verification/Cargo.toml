[package]
name = "lifelinetty"
version = "0.1.0"
edition = "2021"
publish = false

[dependencies]
crc32fast = "1"
lz4_flex = "0.11"
zstd = "0.13"
serde = { version = "1", features = ["derive"] }
serde_json = "1"
serde_bytes = "0.11"
humantime = "2"
serialport = { version = "4", default-features = false }
ctrlc = "3"
rppal = "0.19"
linux-embedded-hal = "0.4"
embedded-hal = "0.2"
hd44780-driver = "0.4"
sysinfo = "0.29"
systemstat = "0.2"
tokio-serial = "5"
