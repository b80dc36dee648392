[package]
name = "fan_control"
version = "0.1.0"
edition = "2021"
publish = false

[dependencies]
serde = { version = "1", features = ["derive"] }
serde_yaml = "0.9"
log = "0.4"
syslog = "*"
lm-sensors = "*"
