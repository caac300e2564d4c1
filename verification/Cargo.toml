[package]
name = "tiny_media_server"
version = "0.1.0"
edition = "2021"
publish = false

[dependencies]
bus = "*"
bytes = "*"
clap = { version = "*", features = ["derive", "env"] }
crossbeam = "*"
faster-stun = "*"
io-uring = "*"
libc = "*"
log = "*"
nix = { version = "*", features = ["socket", "uio", "net"] }
parking_lot = "*"
socket2 = "*"
str0m = "*"
tiny_http = "*"
tracing-subscriber = { version = "*", features = ["env-filter"] }
