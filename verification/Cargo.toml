[package]
name = "vsock_muxer"
version = "0.1.0"
edition = "2021"
publish = false

[dependencies]
epoll = "=4.3.1"
log = "0.4"
