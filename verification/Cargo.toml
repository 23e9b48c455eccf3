[package]
name = "systemd_lock_handler"
version = "0.1.0"
edition = "2021"
publish = false

[dependencies]
clap = "=2.34.0"
dbus = "=0.9.12"
dbus-tokio = "=0.7.6"
env_logger = "=0.11.11"
futures = "=0.3.34"
log = "=0.4.34"
pulsectl-rs = "*"
tokio = { version = "=1.53.2", features = ["rt-multi-thread", "macros"] }
