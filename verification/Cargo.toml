[package]
name = "bluekey"
version = "0.1.0"
edition = "2021"
publish = false

[dependencies]
bluer = { version = "=0.17.4", features = ["bluetoothd"] }
# bluer talks to BlueZ over D-Bus through libdbus; `vendored` builds libdbus from
# its bundled source, so no system dbus-1 library is needed. The project itself
# does not call this crate.
libdbus-sys = { version = "=0.2.7", features = ["vendored"] }
clap = { version = "=4.6.7", features = ["derive"] }
env_logger = "=0.11.11"
evdev = { version = "=0.13.2", features = ["tokio"] }
futures = "=0.3.34"
keycode = "=0.4.0"
libc = "=0.2.191"
log = "=0.4.35"
never-say-never = "=6.6.666"
serde = { version = "=1.0.229", features = ["derive"] }
thiserror = "=2.0.21"
tokio = { version = "=1.54.1", features = ["full"] }
zbus = "=5.19.0"
zvariant = "=5.15.1"
