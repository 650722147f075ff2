[package]
name = "frame_analyzer"
version = "0.1.0"
edition = "2021"
publish = false

[dependencies]
aya = "*"
ctor = "*"
libc = "*"
log = "*"
mio = { version = "*", default-features = false, features = ["os-poll", "os-ext"] }
thiserror = "*"
