[package]
name = "windui"
version = "0.1.0"
edition = "2021"
publish = false

[dependencies]
tiny-skia = "=0.11.4"
x11rb = "=0.13.2"
xim = { version = "=0.5.0", features = ["x11rb-client"] }
log = "=0.4.35"
rfd = { version = "=0.17.2", default-features = false, features = ["xdg-portal"] }
raw-window-handle = "=0.6.2"
