use bluekey::address::{Address, Target};
use bluekey::evdev_bridge::{
    clamp_to_i8, map_button_codes, mouse_button_action, ButtonAction, Clock, EvdevBridgeError, KeyAction,
    KeyboardBridgeState, MouseMotion, ReturnError, BTN_LEFT, BTN_MIDDLE, BTN_RIGHT, KEY_ESC, KEY_LEFTMETA, REL_WHEEL,
    REL_X, REL_Y,
};
use bluekey::hid::Protocol;
use bluekey::keyboard::{KeyboardReturnEvent, KeyboardServerDied};
use bluekey::leds::Led;
use bluekey::mouse::{Button, MouseEvent, MouseReturnEvent, MouseServer, MouseServerDied, MouseState};

const A: Address = Address([1, 2, 3, 4, 5, 6]);
const B: Address = Address([6, 5, 4, 3, 2, 1]);

#[test]
fn button_ids() {
    assert!(Button::from_id(0).is_err());
    assert_eq!(Button::from_id(1).unwrap().into_u16(), 1);
    assert_eq!(Button::from_id(9).unwrap().id, 9);
}

#[test]
fn buttons_set_and_clear_bits() {
    let mut m = MouseState::new();
    assert!(m.press(Button { id: 1 }));
    assert!(m.press(Button { id: 3 }));
    assert_eq!(m.buttons, 0b101);
    assert!(!m.press(Button { id: 1 }));
    assert!(!m.press(Button { id: 4 }));
    assert!(!m.press(Button { id: 0 }));
    assert!(!m.release(Button { id: 0 }));
    assert!(m.buttons < 8);
    assert!(m.release(Button { id: 1 }));
    assert!(!m.release(Button { id: 2 }));
    assert_eq!(m.buttons, 0b100);
}

#[test]
fn mouse_reports_by_protocol() {
    let mut m = MouseState::new();
    assert_eq!(m.protocol, Protocol::Boot);
    m.protocol = Protocol::Report;
    m.buttons = 1;
    assert_eq!(m.report(Some((-1, 5)), Some(-2)), vec![1, 0xFF, 5, 0xFE]);
    assert_eq!(m.report(None, None), vec![1, 0, 0, 0]);
    m.protocol = Protocol::Boot;
    assert_eq!(m.report(Some((-128, 127)), Some(3)), vec![1, 0x80, 0x7F]);
}

#[test]
fn mouse_server_events() {
    let mut server = MouseServer::new();
    assert!(matches!(server.notify(A), Some(MouseReturnEvent::Register(_))));
    assert!(server.notify(A).is_none());
    server.notify(B);
    assert!(server.write_protocol(A, &[1]).is_none());
    assert!(server.write_protocol(B, &[1]).is_none());
    let r = server.mouse_event(MouseEvent::ButtonPress(Target::Target(A), Button { id: 2 }));
    assert_eq!(r.len(), 1);
    assert!(r[0].address.same(&A));
    assert_eq!(r[0].report, vec![0b10, 0, 0, 0]);
    let again = server.mouse_event(MouseEvent::ButtonPress(Target::Target(A), Button { id: 2 }));
    assert!(again.is_empty());
    let moved = server.mouse_event(MouseEvent::Movement(Target::Broadcast, 3, -3, 1));
    assert_eq!(moved.len(), 2);
    assert_eq!(moved[0].report, vec![0b10, 3, 0xFD, 1]);
    assert_eq!(moved[1].report, vec![0, 3, 0xFD, 1]);
    let released = server.mouse_event(MouseEvent::ButtonRelease(Target::Broadcast, Button { id: 2 }));
    assert_eq!(released.len(), 1);
    assert_eq!(released[0].report, vec![0, 0, 0, 0]);
}

#[test]
fn mouse_server_reads_and_writes() {
    let mut server = MouseServer::new();
    assert_eq!(server.read_protocol(A), vec![0]);
    assert_eq!(server.read_input_report(A), vec![0, 0, 0]);
    assert!(server.write_protocol(A, &[1]).is_some());
    assert_eq!(server.read_protocol(A), vec![1]);
    assert!(server.write_protocol(A, &[0]).is_none());
    assert_eq!(server.read_protocol(A), vec![0]);
    let r = server.mouse_event(MouseEvent::Movement(Target::Target(A), 1, 2, 3));
    assert_eq!(r[0].protocol, Protocol::Boot);
    assert_eq!(r[0].report, vec![0, 1, 2]);
    assert!(matches!(server.control_point(A, &[1]), Ok(MouseReturnEvent::Suspend(_))));
    assert!(matches!(server.control_point(A, &[0]), Ok(MouseReturnEvent::Wake(_))));
    assert!(server.control_point(A, &[2]).is_err());
    assert!(server.disconnect(A));
    assert!(server.device(A).is_none());
}

#[test]
fn keyboard_bridge_forwards_mapped_keys() {
    let mut b = KeyboardBridgeState::new(Target::Target(A));
    // evdev KEY_A (30) is USB usage 0x04.
    assert!(matches!(b.on_key(30, 1), Some(KeyAction::Press(_, 0x04))));
    assert!(matches!(b.on_key(30, 0), Some(KeyAction::Release(_, 0x04))));
    assert!(matches!(b.on_key(30, 2), Some(KeyAction::Ignore)));
    // BTN_LEFT has no keyboard usage.
    assert!(matches!(b.on_key(BTN_LEFT, 1), Some(KeyAction::Ignore)));
}

#[test]
fn keyboard_bridge_escape_shortcut() {
    let mut b = KeyboardBridgeState::new(Target::Broadcast);
    assert!(b.mirrored.is_none());
    assert!(matches!(b.on_key(KEY_ESC, 1), Some(KeyAction::Press(_, 0x29))));
    assert!(matches!(b.on_key(KEY_LEFTMETA, 1), Some(KeyAction::Press(_, 0xE3))));
    assert!(b.super_down);
    assert!(matches!(b.on_key(KEY_ESC, 1), Some(KeyAction::Escape(Target::Broadcast, 0xE3))));
    b.on_key(KEY_LEFTMETA, 0);
    assert!(!b.super_down);
    assert!(matches!(b.on_key(KEY_ESC, 1), Some(KeyAction::Press(_, 0x29))));
}

#[test]
fn keyboard_bridge_decides_with_given_usage() {
    let mut b = KeyboardBridgeState::new(Target::Target(B));
    assert!(matches!(b.decide_key(7, 1, None, 0xE3), KeyAction::Ignore));
    assert!(matches!(b.decide_key(7, 1, Some(9), 0xE3), KeyAction::Press(_, 9)));
    assert!(matches!(b.decide_key(KEY_LEFTMETA, 1, Some(0xE3), 0xE3), KeyAction::Press(_, 0xE3)));
    assert!(matches!(b.decide_key(KEY_ESC, 1, Some(0x29), 0x77), KeyAction::Escape(_, 0x77)));
}

#[test]
fn keyboard_bridge_mirrors_leds_of_its_host() {
    let mut b = KeyboardBridgeState::new(Target::Target(A));
    assert!(matches!(b.on_return_event(Ok(KeyboardReturnEvent::LedOn(A, Led::CapsLock))), Ok(Some((Led::CapsLock, true)))));
    assert!(matches!(b.on_return_event(Ok(KeyboardReturnEvent::LedOff(A, Led::NumLock))), Ok(Some((Led::NumLock, false)))));
    assert!(matches!(b.on_return_event(Ok(KeyboardReturnEvent::LedOn(B, Led::CapsLock))), Ok(None)));
    assert!(matches!(b.on_return_event(Ok(KeyboardReturnEvent::Register(B))), Ok(None)));
    assert!(matches!(b.on_return_event(Err(ReturnError::Lagged(4))), Err(EvdevBridgeError::Desynced)));
    assert!(matches!(b.on_return_event(Err(ReturnError::ServerDied)), Err(EvdevBridgeError::ServerDied)));
    let mut all = KeyboardBridgeState::new(Target::Broadcast);
    assert!(matches!(all.on_return_event(Err(ReturnError::ServerDied)), Ok(None)));
}

#[test]
fn bridge_error_conversions() {
    assert!(matches!(EvdevBridgeError::from(KeyboardServerDied), EvdevBridgeError::ServerDied));
    assert!(matches!(EvdevBridgeError::from(MouseServerDied), EvdevBridgeError::ServerDied));
    assert!(matches!(EvdevBridgeError::from(ReturnError::Lagged(1)), EvdevBridgeError::Desynced));
    let io = std::io::Error::new(std::io::ErrorKind::Other, "x");
    assert!(matches!(EvdevBridgeError::from(io), EvdevBridgeError::EvdevError(_)));
}

#[test]
fn mouse_button_codes() {
    assert_eq!(map_button_codes(BTN_LEFT).unwrap().id, 1);
    assert_eq!(map_button_codes(BTN_RIGHT).unwrap().id, 2);
    assert_eq!(map_button_codes(BTN_MIDDLE).unwrap().id, 3);
    assert!(map_button_codes(0x113).is_none());
    assert!(matches!(mouse_button_action(Target::Broadcast, BTN_LEFT, 1), Some(ButtonAction::Press(_, b)) if b.id == 1));
    assert!(matches!(mouse_button_action(Target::Broadcast, BTN_RIGHT, 0), Some(ButtonAction::Release(_, b)) if b.id == 2));
    assert!(mouse_button_action(Target::Broadcast, BTN_RIGHT, 2).is_none());
    assert!(mouse_button_action(Target::Broadcast, 30, 1).is_none());
}

#[test]
fn motion_accumulates_and_clamps() {
    let mut m = MouseMotion::new();
    m.accumulate(REL_X, 100);
    m.accumulate(REL_X, 100);
    m.accumulate(REL_Y, -300);
    m.accumulate(REL_WHEEL, 2);
    m.accumulate(0x06, 50);
    assert_eq!(m.tick(), (127, -128, 2));
    assert_eq!((m.x, m.y, m.scroll), (73, -172, 0));
    assert_eq!(m.tick(), (73, -128, 0));
    assert_eq!((m.x, m.y), (0, -44));
    assert_eq!(clamp_to_i8(1000), 127);
    assert_eq!(clamp_to_i8(-5), -5);
}

#[test]
fn motion_overflow_is_detected() {
    let mut m = MouseMotion::new();
    assert!(m.can_accumulate(REL_X, i32::MAX));
    m.accumulate(REL_X, i32::MAX);
    assert!(!m.can_accumulate(REL_X, 1));
    assert!(m.can_accumulate(REL_Y, i32::MIN));
    assert!(m.can_accumulate(0x07, i32::MAX));
}

#[test]
fn clock_waits_the_rest_of_its_period() {
    let mut c = Clock::new(30, 1000);
    assert_eq!(c.remaining(1000), 30);
    assert_eq!(c.remaining(1010), 20);
    assert_eq!(c.remaining(1030), 0);
    assert_eq!(c.remaining(5000), 0);
    assert_eq!(c.remaining(900), 30);
    c.tick(2000);
    assert_eq!(c.last, 2000);
    assert_eq!(c.remaining(2001), 29);
}
