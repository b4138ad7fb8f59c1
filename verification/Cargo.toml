[package]
name = "kanata_switcher"
version = "0.1.0"
edition = "2021"
publish = false

[dependencies]
regex = "1"
tokio = { version = "1", features = ["full"] }
zbus = "5"
clap = { version = "4", features = ["derive"] }
serde = { version = "1", features = ["derive"] }
serde_json = "1"
x11rb = "0.13"
wayland-client = "0.31"
wayland-protocols-wlr = { version = "0.3", features = ["client"] }
futures-util = "0.3"
ksni = "0.2"
font8x8 = "0.3"
dirs = "6"
libc = "0.2"
