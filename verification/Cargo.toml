[package]
name = "netgadget"
version = "0.1.0"
edition = "2021"
publish = false

[dependencies]
smoltcp = { version = "=0.12.0", default-features = false, features = ["medium-ethernet", "proto-ipv4", "proto-dhcpv4", "socket-tcp", "socket-dhcpv4"] }
usb-device = "=0.3.2"
usbd-ethernet = "=0.4.0"
rtic-sync = "=1.5.0"
fugit = "=0.3.9"
futures = "=0.3.34"
micropb = "=0.6.0"

[dev-dependencies]
cobs = "=0.5.1"
