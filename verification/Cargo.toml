[package]
name = "phonowire"
version = "0.1.0"
edition = "2021"
publish = false

[dependencies]
libc = "0.2"
mio = { version = "1", features = ["os-poll", "net"] }
signal-hook = "0.3"
