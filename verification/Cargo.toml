[package]
name = "cmsisdap"
version = "0.1.0"
edition = "2021"
publish = false

[dependencies]
nusb = "0.2"
hidapi = { version = "2", default-features = false, features = ["linux-native-basic-udev"] }
