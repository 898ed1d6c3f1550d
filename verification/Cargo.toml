[package]
name = "coolcooler"
version = "0.1.0"
edition = "2021"
publish = false

[dependencies]
image = { version = "0.25", default-features = false, features = ["png", "jpeg", "gif"] }
fast_image_resize = "5"
imageproc = { version = "0.25", default-features = false }
ab_glyph = "0.2"
chrono = "0.4"
hidapi = { version = "2", default-features = false, features = ["linux-native-basic-udev"] }
clap = { version = "4", features = ["derive"] }
ctrlc = "3"
serde = { version = "1", features = ["derive"] }
serde_json = "1"
thiserror = "2"
sysinfo = "0.33"
nvml-wrapper = "0.10"
