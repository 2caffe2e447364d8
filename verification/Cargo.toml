[package]
name = "projfs"
version = "0.1.0"
edition = "2021"
publish = false

[dependencies]
bimap = "0.6"
mime_guess = "2"
seahash = "4"
serde = { version = "1", features = ["derive"] }
serde_yaml = "0.8"
clap = { version = "2", features = ["yaml"] }
dirs = "2"
env_logger = "0.6"
log = "0.4"
fuse_mt = "0.5"
time = "0.1"
libc = "0.2"
