[package]
name = "usb_camera"
version = "2.0.0"
edition = "2021"
publish = false

[dependencies]
arrow-array = "59"
bytes = "1"
clap = { version = "4", features = ["derive"] }
crossbeam-channel = "0.5"
eyre = "0.6"
forge_msgs = "2.0.0"
forgelab_common = "2.1.0"
image = { version = "0.25", default-features = false, features = ["jpeg", "png"] }
ndarray = "*"
rand = "*"
serde = { version = "1", features = ["derive"] }
serde_json = "1"
serde_yaml = "*"
tracing = "0.1"
v4l = "*"
