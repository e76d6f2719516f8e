[package]
name = "prefixdevname"
version = "0.1.0"
edition = "2021"
publish = false

[dependencies]
env_logger = "*"
hwaddr = "*"
libc = "*"
libudev = "*"
log = "*"
regex = "*"
rust-ini = "*"
