[package]
name = "foa"
version = "0.1.0"
edition = "2021"
publish = false

[dependencies]
ieee80211 = { version = "=0.5.9", features = ["crypto"] }
llc-rs = "=0.1.3"
ethernet = "=0.1.6"
awdl-frame-parser = "=0.4.1"
heapless = "=0.9.3"
smoltcp = { version = "=0.14.0", default-features = false, features = ["medium-ethernet", "proto-ipv6", "socket-udp"] }
embassy-time = { version = "=0.5.1", features = ["std"] }
embassy-sync = "=0.8.0"
embassy-futures = "=0.1.2"
embassy-net-driver = "=0.2.0"
embassy-net-driver-channel = "=0.4.0"
critical-section = { version = "=1.2.0", features = ["std"] }
portable-atomic = "=1.15.0"
rand_core = "=0.9.5"
futures-util = { version = "=0.3.34", default-features = false }
