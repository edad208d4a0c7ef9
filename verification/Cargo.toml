[package]
name = "contain"
version = "0.1.0"
edition = "2021"
publish = false

[dependencies]
libc = "=0.2.191"
libredox = "=0.0.3"
log = "=0.4.35"
redox-scheme = "=0.1.0"
redox_event = "0.3.0"
redox_syscall = "=0.4.1"
