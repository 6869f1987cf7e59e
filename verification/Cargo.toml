[package]
name = "usbdbg"
version = "0.1.0"
edition = "2021"
publish = false

[dependencies]
nusb = "0.2"
tokio = { version = "1", features = ["macros", "rt-multi-thread", "time", "io-std", "io-util"] }
