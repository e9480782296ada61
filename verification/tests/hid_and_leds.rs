use bluekey::hid::{decode_control_point, hid_information, keyboard_report_descriptor, mouse_report_descriptor, report_reference, ControlPointCommand, Protocol, ReportKind};
use bluekey::leds::{led_changes, led_state, Led};

#[test]
fn protocol_bytes() {
    assert_eq!(Protocol::Boot.into_u8(), 0);
    assert_eq!(Protocol::Report.into_u8(), 1);
}

#[test]
fn protocol_writes() {
    assert_eq!(Protocol::from_write(&[]), None);
    assert_eq!(Protocol::from_write(&[0]), Some(Protocol::Boot));
    assert_eq!(Protocol::from_write(&[1, 7]), Some(Protocol::Report));
    assert_eq!(Protocol::from_write(&[2]), None);
}

#[test]
fn control_point_commands() {
    assert_eq!(decode_control_point(&[1]), Ok(ControlPointCommand::Suspend));
    assert_eq!(decode_control_point(&[0]), Ok(ControlPointCommand::Wake));
    assert!(decode_control_point(&[2]).is_err());
    assert!(decode_control_point(&[255, 0]).is_err());
}

#[test]
fn hid_constants() {
    assert_eq!(hid_information(), vec![0x01, 0x11, 0x00, 0x02]);
    assert_eq!(report_reference(ReportKind::Input), vec![0x00, 0x01]);
    assert_eq!(report_reference(ReportKind::Output), vec![0x00, 0x02]);
    let d = keyboard_report_descriptor();
    assert_eq!(d.len(), 63);
    assert_eq!(&d[..6], &[0x05, 0x01, 0x09, 0x06, 0xA1, 0x01]);
    assert_eq!(d[62], 0xC0);
}

#[test]
fn mouse_descriptor() {
    let d = mouse_report_descriptor();
    assert_eq!(d.len(), 52);
    assert_eq!(&d[..4], &[0x05, 0x01, 0x09, 0x02]);
    assert_eq!(&d[50..], &[0xC0, 0xC0]);
}

#[test]
fn led_ids() {
    assert_eq!(Led::from_id(0x01).unwrap(), Led::NumLock);
    assert_eq!(Led::from_id(0x05).unwrap(), Led::Kana);
    assert_eq!(Led::from_id(0x57).unwrap(), Led::SystemMicrophoneMute);
    assert_eq!(Led::from_id(0x67).unwrap(), Led::Player7);
    assert!(Led::from_id(0x00).is_err());
    assert!(Led::from_id(0x58).is_err());
    assert!(Led::from_id(0x5F).is_err());
    assert!(Led::from_id(0x68).is_err());
    assert_eq!(Led::Error.into_id(), 0x39);
}

#[test]
fn led_id_roundtrip_for_every_byte() {
    for id in 0..=255u8 {
        match Led::from_id(id) {
            Ok(led) => assert_eq!(led.into_id(), id),
            Err(_) => assert!(id == 0 || (0x58..=0x5F).contains(&id) || id > 0x67),
        }
    }
}

#[test]
fn led_changes_on_and_off() {
    assert_eq!(led_changes(0b00000, 0b00011), vec![(Led::NumLock, true), (Led::CapsLock, true)]);
    assert_eq!(led_changes(0b00011, 0b00010), vec![(Led::NumLock, false)]);
    assert_eq!(led_changes(0b10101, 0b01010), vec![
        (Led::NumLock, false),
        (Led::CapsLock, true),
        (Led::ScrollLock, false),
        (Led::Compose, true),
        (Led::Kana, false),
    ]);
    assert_eq!(led_changes(0b111, 0b111), vec![]);
    // Bits above the five report LEDs are not announced.
    assert_eq!(led_changes(0, 0b1110_0000), vec![]);
}

#[test]
fn led_state_bits() {
    assert_eq!(led_state(0b00101), vec![
        (Led::NumLock, true),
        (Led::CapsLock, false),
        (Led::ScrollLock, true),
        (Led::Compose, false),
        (Led::Kana, false),
    ]);
}

#[test]
fn applying_led_changes_gives_the_new_state() {
    for old in 0..32u8 {
        for new in 0..32u8 {
            let mut state: Vec<bool> = led_state(old).into_iter().map(|(_, on)| on).collect();
            for (led, on) in led_changes(old, new) {
                state[(led.into_id() - 1) as usize] = on;
            }
            let expected: Vec<bool> = led_state(new).into_iter().map(|(_, on)| on).collect();
            assert_eq!(state, expected);
        }
    }
}
