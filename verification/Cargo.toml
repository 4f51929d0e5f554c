[package]
name = "wl-gammarelay"
version = "0.1.0"
edition = "2021"
publish = false

[dependencies]
anyhow = "1"
bytemuck = "1"
clap = { version = "4", features = ["derive"] }
libc = "0.2"
memmap2 = "0.9"
rustbus = "*"
shmemfdrs2 = "1"
wayrs-client = "1"
wayrs-protocols = { version = "0.14", features = ["wlr-gamma-control-unstable-v1"] }
