[package]
name = "wluma"
version = "0.1.0"
edition = "2021"
publish = false

[dependencies]
anyhow = "1"
ash = "*"
chrono = "0.4"
dbus = "0.9"
ddc-hi = "*"
drm-fourcc = "2"
env_logger = "*"
futures-util = "0.3"
inotify = "*"
itertools = "*"
lazy_static = "1"
libc = "0.2"
log = "0.4"
macro_rules_attribute = "0.2"
pipewire = { version = "*", features = ["v0_3_44"] }
serde = { version = "1", features = ["derive"] }
serde_yaml = "0.9"
smol = "2"
smol-macros = "*"
toml = "*"
wayland-client = "0.31"
wayland-protocols = { version = "*", features = ["client", "staging"] }
wayland-protocols-plasma = { version = "*", features = ["client"] }
xdg = "3"
