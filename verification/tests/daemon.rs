use bluekey::address::Address;
use bluekey::commands::enter_pressed;
use bluekey::registry::vanished_owner;
use bluekey::tracker::{DeviceTracker, InputKind};

#[test]
fn tracker_publishes_hosts_once() {
    let mut t = DeviceTracker::new();
    let a = Address([1; 6]);
    assert!(t.register(a, InputKind::Keyboard));
    assert!(!t.register(a, InputKind::Mouse));
    let d = t.device(a).unwrap();
    assert!(d.has_keyboard && d.has_mouse && !d.suspended);
    let b = Address([2; 6]);
    assert!(t.register(b, InputKind::Mouse));
    let e = t.device(b).unwrap();
    assert!(!e.has_keyboard && e.has_mouse);
    assert!(t.remove(a));
    assert!(!t.remove(a));
    assert!(t.device(a).is_none());
    assert!(t.device(b).is_some());
}

#[test]
fn vanished_clients() {
    assert_eq!(vanished_owner(Some(":1.4".to_string()), None), Some(":1.4".to_string()));
    assert_eq!(vanished_owner(Some(":1.4".to_string()), Some(":1.5".to_string())), None);
    assert_eq!(vanished_owner(None, Some(":1.5".to_string())), None);
    assert_eq!(vanished_owner(None, None), None);
}

#[test]
fn enter_detection() {
    let mut buf = [b'a'; 16];
    assert!(enter_pressed(0, &buf));
    assert!(!enter_pressed(16, &buf));
    buf[3] = b'\n';
    assert!(enter_pressed(4, &buf));
    assert!(!enter_pressed(3, &buf));
}
