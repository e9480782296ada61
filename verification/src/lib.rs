//! Verified core of a Bluetooth keyboard and mouse bridge: HID report state,
//! per-device server state, evdev bridge decisions, the daemon's bridge
//! registry and the command line's formatting and parsing rules.

pub mod mouse;
pub mod hid;
pub mod leds;
pub mod address;
pub mod devices;
pub mod keyboard;
pub mod evdev_bridge;
pub mod registry;
pub mod format;
pub mod keys;
pub mod commands;
pub mod tracker;
