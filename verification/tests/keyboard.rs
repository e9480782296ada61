use bluekey::address::{Address, Target};
use bluekey::hid::Protocol;
use bluekey::keyboard::{KeyboardEvent, KeyboardReturnEvent, KeyboardServer, KeyboardState};
use bluekey::leds::Led;

const A: Address = Address([0x11, 0x22, 0x33, 0x44, 0x55, 0x66]);
const B: Address = Address([0xAA, 0xBB, 0xCC, 0xDD, 0xEE, 0xFF]);

#[test]
fn press_fills_slots_in_order() {
    let mut s = KeyboardState::new();
    assert!(s.press(0x04));
    assert!(s.press(0x05));
    assert_eq!(s.keys, [0x04, 0x05, 0, 0, 0, 0]);
    assert_eq!(s.report(), [0, 0, 0x04, 0x05, 0, 0, 0, 0]);
}

#[test]
fn pressing_a_key_twice_is_not_reported() {
    let mut s = KeyboardState::new();
    assert!(s.press(0x04));
    assert!(!s.press(0x04));
    assert_eq!(s.keys, [0x04, 0, 0, 0, 0, 0]);
}

#[test]
fn seventh_key_is_dropped_but_reported() {
    let mut s = KeyboardState::new();
    for k in 4..10u8 {
        assert!(s.press(k));
    }
    assert!(s.press(10));
    assert_eq!(s.keys, [4, 5, 6, 7, 8, 9]);
}

#[test]
fn modifiers_set_and_clear_bits() {
    let mut s = KeyboardState::new();
    assert!(s.press(0xE1));
    assert!(s.press(0xE7));
    assert_eq!(s.modifiers, 0b1000_0010);
    assert_eq!(s.keys, [0; 6]);
    assert!(s.release(0xE1));
    assert_eq!(s.modifiers, 0b1000_0000);
    assert_eq!(s.report(), [0x80, 0, 0, 0, 0, 0, 0, 0]);
}

#[test]
fn release_frees_the_slot() {
    let mut s = KeyboardState::new();
    s.press(0x04);
    s.press(0x05);
    assert!(s.release(0x04));
    assert_eq!(s.keys, [0, 0x05, 0, 0, 0, 0]);
    assert!(!s.release(0x04));
    assert!(s.press(0x06));
    assert_eq!(s.keys, [0x06, 0x05, 0, 0, 0, 0]);
}

#[test]
fn release_undoes_press() {
    let mut s = KeyboardState::new();
    s.press(0x10);
    let before = s;
    s.press(0x20);
    s.release(0x20);
    assert_eq!(s.keys, before.keys);
    assert_eq!(s.modifiers, before.modifiers);
}

#[test]
fn report_vec_matches_report() {
    let mut s = KeyboardState::new();
    s.press(0xE0);
    s.press(0x2C);
    assert_eq!(s.report_vec(), s.report().to_vec());
    assert_eq!(s.report_vec(), vec![0x01, 0x00, 0x2C, 0, 0, 0, 0, 0]);
}

#[test]
fn server_registers_hosts_once() {
    let mut server = KeyboardServer::new();
    assert!(matches!(server.notify(A), Some(KeyboardReturnEvent::Register(a)) if a.same(&A)));
    assert!(server.notify(A).is_none());
    assert!(matches!(server.notify(B), Some(KeyboardReturnEvent::Register(_))));
    let addrs = server.addresses();
    assert_eq!(addrs.len(), 2);
    assert!(addrs[0].same(&A) && addrs[1].same(&B));
}

#[test]
fn broadcast_reaches_every_host() {
    let mut server = KeyboardServer::new();
    server.notify(A);
    server.notify(B);
    let reports = server.key_event(KeyboardEvent::PressKey(Target::Broadcast, 0x04));
    assert_eq!(reports.len(), 2);
    assert!(reports[0].address.same(&A));
    assert!(reports[1].address.same(&B));
    assert_eq!(reports[0].report, [0, 0, 0x04, 0, 0, 0, 0, 0]);
    assert_eq!(reports[1].protocol, Protocol::Boot);
}

#[test]
fn targeted_event_reaches_one_host() {
    let mut server = KeyboardServer::new();
    server.notify(A);
    server.notify(B);
    let reports = server.key_event(KeyboardEvent::PressKey(Target::Target(B), 0x05));
    assert_eq!(reports.len(), 1);
    assert!(reports[0].address.same(&B));
    assert_eq!(server.device(A).unwrap().keys, [0; 6]);
    assert_eq!(server.device(B).unwrap().keys, [0x05, 0, 0, 0, 0, 0]);
    let none = server.key_event(KeyboardEvent::ReleaseKey(Target::Target(Address([9; 6])), 0x05));
    assert!(none.is_empty());
}

#[test]
fn protocol_write_switches_report_channel() {
    let mut server = KeyboardServer::new();
    assert!(matches!(server.write_protocol(A, &[1]), Some(KeyboardReturnEvent::Register(_))));
    assert_eq!(server.read_protocol(A), vec![1]);
    assert!(server.write_protocol(A, &[5]).is_none());
    assert_eq!(server.read_protocol(A), vec![1]);
    assert_eq!(server.read_protocol(B), vec![0]);
    let reports = server.key_event(KeyboardEvent::PressKey(Target::Broadcast, 0x04));
    assert_eq!(reports[0].protocol, Protocol::Report);
}

#[test]
fn reads_of_unknown_hosts_give_a_fresh_keyboard() {
    let server = KeyboardServer::new();
    assert_eq!(server.read_input_report(A), vec![0, 0, 0, 0, 0, 0, 0, 0]);
    assert_eq!(server.read_protocol(A), vec![0]);
    assert_eq!(server.read_leds(A), vec![0]);
    assert_eq!(server.read_boot_output(), vec![0]);
    assert!(server.device(A).is_none());
}

#[test]
fn led_writes_announce_changes() {
    let mut server = KeyboardServer::new();
    let first = server.write_leds(A, &[0b011]);
    assert_eq!(first.len(), 3);
    assert!(matches!(first[0], KeyboardReturnEvent::Register(_)));
    assert!(matches!(first[1], KeyboardReturnEvent::LedOn(_, Led::NumLock)));
    assert!(matches!(first[2], KeyboardReturnEvent::LedOn(_, Led::CapsLock)));
    let second = server.write_leds(A, &[0b010]);
    assert_eq!(second.len(), 1);
    assert!(matches!(second[0], KeyboardReturnEvent::LedOff(a, Led::NumLock) if a.same(&A)));
    assert_eq!(server.read_leds(A), vec![0b010]);
    assert_eq!(server.device(A).unwrap().led_state()[1], (Led::CapsLock, true));
}

#[test]
fn boot_output_sets_leds_silently() {
    let mut server = KeyboardServer::new();
    assert!(server.write_boot_output(A, &[0b100]).is_some());
    assert!(server.write_boot_output(A, &[0b101]).is_none());
    assert_eq!(server.read_leds(A), vec![0b101]);
}

#[test]
fn control_point_events() {
    let server = KeyboardServer::new();
    assert!(matches!(server.control_point(A, &[1]), Ok(KeyboardReturnEvent::Suspend(_))));
    assert!(matches!(server.control_point(A, &[0]), Ok(KeyboardReturnEvent::Wake(_))));
    assert!(server.control_point(A, &[3]).is_err());
}

#[test]
fn disconnect_forgets_host() {
    let mut server = KeyboardServer::new();
    server.notify(A);
    server.notify(B);
    assert!(server.disconnect(A));
    assert!(!server.disconnect(A));
    assert!(server.device(A).is_none());
    assert!(server.device(B).is_some());
    assert!(server.notify(A).is_some());
}

#[test]
fn slots_never_hold_a_key_twice_or_a_modifier() {
    let mut k = KeyboardState::new();
    for key in [0x04u8, 0xE1, 0x04, 0x05, 0xE0, 0x06, 0x07, 0x08, 0x09, 0x0A, 0x05, 0xE7] {
        k.press(key);
        k.release(0x06);
        k.press(key);
        for (i, a) in k.keys.iter().enumerate() {
            assert!(!(0xE0..=0xE7).contains(a));
            for b in &k.keys[i + 1..] {
                assert!(*a == 0 || a != b);
            }
        }
    }
}

#[test]
fn writes_of_one_host_leave_the_others_alone() {
    let mut server = KeyboardServer::new();
    server.notify(A);
    server.notify(B);
    server.key_event(KeyboardEvent::PressKey(Target::Target(B), 0x05));
    server.write_protocol(A, &[1]);
    server.write_leds(A, &[0b11]);
    server.write_boot_output(A, &[0b1]);
    assert_eq!(server.device(B).unwrap().keys, [0x05, 0, 0, 0, 0, 0]);
    assert_eq!(server.read_protocol(B), vec![0]);
    assert_eq!(server.read_leds(B), vec![0]);
    assert!(server.disconnect(A));
    assert_eq!(server.device(B).unwrap().keys, [0x05, 0, 0, 0, 0, 0]);
}
