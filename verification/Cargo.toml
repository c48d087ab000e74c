[package]
name = "raylock"
version = "0.1.0"
edition = "2021"
publish = false

[dependencies]
egui = { version = "*", default-features = false }
sysinfo = "*"
battery = "*"
chrono = { version = "*", default-features = false, features = ["clock"] }
os_info = { version = "*", default-features = false }
rand = "*"
