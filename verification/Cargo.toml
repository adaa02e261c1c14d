[package]
name = "raingauge"
version = "0.1.0"
edition = "2021"
publish = false

[dependencies]
crc = "=3.4.0"
embedded-hal = { version = "=0.2.7", features = ["unproven"] }
libc = "=0.2.190"
sqlite = "=0.37.4"
