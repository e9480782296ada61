# bluekey

Bluekey lets a Linux computer act as a Bluetooth keyboard and mouse: it serves the
HID-over-GATT service with BlueZ, grabs local evdev input devices and forwards their
events to connected Bluetooth hosts. A daemon (`bluekeyd`) owns the emulated devices and
offers a D-Bus interface; the `bluekey` command line creates bridges, lists the hosts
and sets the keyboard escape shortcut.

## Layout

- `src/` is the verified library (Verus). Its public functions carry contracts:
  - `hid`, `leds`: protocol bytes, control point commands, report descriptors, LED
    usage ids and LED report changes;
  - `keyboard`, `mouse`: per-host keyboard and mouse state and the servers' reactions
    to input events and to GATT reads and writes;
  - `devices`, `tracker`: per-host state keyed by Bluetooth address;
  - `evdev_bridge`: the decisions of the keyboard and mouse bridges (key mapping,
    escape shortcut, LED mirroring, movement accumulation, rate limiting);
  - `registry`: the daemon's running bridges, with ownership checks and clean-up;
  - `address`, `format`, `keys`, `commands`: addresses, text output and the command
    line's parsing and listing rules.
- `app/` is the program around the library: the BlueZ GATT servers, the evdev event
  loops, the D-Bus daemon and the command line. It starts as the daemon when run as
  `bluekeyd`, as the command line otherwise.
- `tests/` runs the library on concrete values.
