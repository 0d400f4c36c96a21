[package]
name = "eruption"
version = "0.1.0"
edition = "2021"
publish = false

[dependencies]
byteorder = "=1.5.0"
chrono = "=0.4.45"
clap = "=4.6.7"
ctrlc = "=3.5.2"
dbus = "=0.9.12"
eyre = "=0.6.14"
hexdump = "=0.1.3"
hidapi = "=2.6.7"
libc = "=0.2.190"
log = "=0.4.34"
parking_lot = { version = "=0.12.5", features = ["deadlock_detection"] }
pretty_env_logger = "=0.5.0"
serde = { version = "=1.0.229", features = ["derive"] }
thiserror = "=2.0.21"
