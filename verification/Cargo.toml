[package]
name = "zenlog"
version = "0.1.0"
edition = "2021"
publish = false

[dependencies]
chan-signal = "=0.3.3"
chrono = "=0.4.45"
libc = "=0.2.191"
log = "=0.4.34"
mio = { version = "=1.2.4", features = ["os-poll", "net"] }
rand = "=0.8.8"
serde_json = { version = "=1.0.154", features = ["preserve_order"] }
serde_yaml = "=0.9.34"
termion = "=4.0.6"
