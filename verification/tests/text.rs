use bluekey::address::Address;
use bluekey::format::{address_path, push_decimal, AnsiFormat, Group, Groupable};
use bluekey::keys::{evdev_keycode_to_name, name_to_evdev_keycode};

fn decimal(n: u64) -> String {
    let mut s = String::from("#");
    push_decimal(&mut s, n);
    s
}

#[test]
fn decimals() {
    assert_eq!(decimal(0), "#0");
    assert_eq!(decimal(7), "#7");
    assert_eq!(decimal(65535), "#65535");
    assert_eq!(decimal(u64::MAX), format!("#{}", u64::MAX));
}

#[test]
fn device_object_path() {
    let a = Address([0x00, 0x1A, 0x7D, 0xDA, 0x71, 0x13]);
    assert_eq!(address_path(a), "/us/colbystuff/Bluekey/devices/001a7dda7113");
}

#[test]
fn group_writes_separators_between_parts() {
    let mut g = Group::new(String::from(">"), String::from(", "));
    g.next().push_str("a");
    g.next().push_str("b");
    g.next().push_str("c");
    assert_eq!(g.into_text(), ">a, b, c");
    let mut h = String::new().into_group(String::from("\n"));
    h.next().push_str("x");
    assert_eq!(h.into_text(), "x");
}

#[test]
fn ansi_wrap() {
    let dim = AnsiFormat::new("\x1B[2m", "\x1B[22m");
    assert_eq!(dim.wrap("AA:BB").render(), "\x1B[2mAA:BB\x1B[22m");
    assert_eq!(AnsiFormat::new("", "").wrap("x").render(), "x");
}

#[test]
fn address_parsing() {
    let a = Address::parse("AA:bb:0C:1:+2:ff").unwrap();
    assert_eq!(a.0, [0xAA, 0xBB, 0x0C, 0x01, 0x02, 0xFF]);
    assert!(Address::parse("AA:BB:CC:DD:EE").is_none());
    assert!(Address::parse("AA:BB:CC:DD:EE:FF:00").is_none());
    assert!(Address::parse("AA:BB:CC:DD:EE:GG").is_none());
    assert!(Address::parse("AA:BB:CC:DD:EE:100").is_none());
    assert!(Address::parse("AA:BB:CC:DD:EE:").is_none());
    assert!(Address::parse("").is_none());
}

#[test]
fn address_text_roundtrip() {
    let a = Address([0x00, 0x1A, 0x7D, 0xDA, 0x71, 0x13]);
    let t = a.to_text();
    assert_eq!(t, "00:1A:7D:DA:71:13");
    assert!(Address::parse(&t).unwrap().same(&a));
}

#[test]
fn address_equality() {
    assert!(Address([1; 6]).same(&Address([1; 6])));
    assert!(!Address([1; 6]).same(&Address([1, 1, 1, 1, 1, 2])));
}

#[test]
fn key_names() {
    assert_eq!(evdev_keycode_to_name(1).as_deref(), Some("ESC"));
    assert_eq!(evdev_keycode_to_name(125).as_deref(), Some("LEFTMETA"));
    assert_eq!(evdev_keycode_to_name(30).as_deref(), Some("A"));
    assert_eq!(evdev_keycode_to_name(0x110), None);
    assert_eq!(evdev_keycode_to_name(0xFFF), None);
    assert_eq!(name_to_evdev_keycode("ESC"), Some(1));
    assert_eq!(name_to_evdev_keycode("LEFTMETA"), Some(125));
    assert_eq!(name_to_evdev_keycode("esc"), None);
    assert_eq!(name_to_evdev_keycode(""), None);
}
