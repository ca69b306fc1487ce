[package]
name = "armchine"
version = "0.1.0"
edition = "2021"
publish = false

[dependencies]
iso9660 = "=0.1.1"
xmas-elf = "=0.10.0"
clap = { version = "=3.2.25", features = ["derive"] }
libc = "=0.2.190"
capstone = "=0.14.0"
