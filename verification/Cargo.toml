[package]
name = "vm_devices"
version = "0.1.0"
edition = "2021"
publish = false

[dependencies]
slab = "0.4"
smoltcp = { version = "0.12", default-features = false, features = ["std", "medium-ethernet", "proto-ipv4", "proto-ipv6", "proto-dhcpv4", "socket-dhcpv4"] }
heapless = "0.8"
futures = "0.3"
socket2 = { version = "0.5", features = ["all"] }
