[package]
name = "lightshow"
version = "0.1.0"
edition = "2021"
publish = false

[dependencies]
crc = "*"
serialport = { version = "*", default-features = false }
tracing = "*"
tracing-subscriber = "*"
nu-ansi-term = "*"
time = "*"
anyhow = "*"
dxgcap = "*"

[dev-dependencies]
cobs2 = "*"
