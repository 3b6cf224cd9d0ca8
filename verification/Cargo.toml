[package]
name = "smol-dfr"
version = "0.1.0"
edition = "2021"
publish = false

[dependencies]
anyhow = "=1.0.104"
chrono = { version = "=0.4.45", features = ["unstable-locales"] }
drm = "=0.15.0"
input = "=0.9.1"
input-linux = { version = "=0.7.1", features = ["serde"] }
input-linux-sys = "=0.9.0"
libc = "=0.2.191"
libpulse-binding = "=2.30.1"
niri-ipc = "=26.4.0"
nix = { version = "=0.29.0", features = ["inotify", "event", "signal"] }
privdrop = "=0.5.7"
serde = { version = "=1.0.229", features = ["derive"] }
toml = "=0.8.23"
udev = "=0.9.3"
