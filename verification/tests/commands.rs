use bluekey::address::Address;
use bluekey::commands::{
    find_device, parse_mac, power_status, render_device_list, AddressError, AliasSearch, BridgeHandle, Bridges, Bus,
    BusConnectionError,
    BusProbe, ConnectStep, ConnectionBus, ConnectionBusArgument, DeviceEntry, EscapeShortcut, PowerStatus,
    RemoteDevice, RemoteDeviceArgs, Shortcut, ShortcutFormattingError,
};

fn bus(system: bool, user: bool) -> ConnectionBusArgument {
    ConnectionBusArgument { system, user }
}

#[test]
fn bus_choice() {
    assert_eq!(bus(false, false).choice(), ConnectionBus::Unspecified);
    assert_eq!(bus(true, false).choice(), ConnectionBus::System);
    assert_eq!(bus(false, true).choice(), ConnectionBus::Session);
    assert_eq!(bus(true, true).choice(), ConnectionBus::Session);
}

#[test]
fn connecting_with_a_chosen_bus() {
    let sys = bus(true, false);
    assert_eq!(sys.connect_step(None, None), ConnectStep::Probe(Bus::System));
    assert_eq!(sys.connect_step(None, Some(BusProbe::Available)), ConnectStep::Use(Bus::System));
    assert_eq!(sys.connect_step(None, Some(BusProbe::Unavailable)), ConnectStep::FailSystem);
    let ses = bus(false, true);
    assert_eq!(ses.connect_step(None, None), ConnectStep::Probe(Bus::Session));
    assert_eq!(ses.connect_step(Some(BusProbe::Failed), None), ConnectStep::FailSession);
}

#[test]
fn connecting_without_a_choice_tries_session_then_system() {
    let any = bus(false, false);
    assert_eq!(any.connect_step(None, None), ConnectStep::Probe(Bus::Session));
    assert_eq!(any.connect_step(Some(BusProbe::Available), None), ConnectStep::Use(Bus::Session));
    assert_eq!(any.connect_step(Some(BusProbe::Unavailable), None), ConnectStep::Probe(Bus::System));
    assert_eq!(any.connect_step(Some(BusProbe::Failed), Some(BusProbe::Available)), ConnectStep::Use(Bus::System));
    assert_eq!(any.connect_step(Some(BusProbe::Failed), Some(BusProbe::Unavailable)), ConnectStep::FailBoth);
}

#[test]
fn remote_device_resolution() {
    let by_mac = RemoteDeviceArgs { mac: Some("AA:BB:CC:DD:EE:FF".to_string()), alias: None };
    assert!(matches!(by_mac.resolve(), RemoteDevice::Mac("AA:BB:CC:DD:EE:FF")));
    let by_alias = RemoteDeviceArgs { mac: None, alias: Some("iPad".to_string()) };
    assert!(matches!(by_alias.resolve(), RemoteDevice::Alias("iPad")));
}

#[test]
fn mac_parsing() {
    assert_eq!(parse_mac("01:02:03:04:05:06").unwrap().0, [1, 2, 3, 4, 5, 6]);
    assert!(matches!(parse_mac("nonsense"), Err(AddressError::AddressFormatting("nonsense"))));
}

fn hosts() -> Vec<(Address, String)> {
    vec![
        (Address([1; 6]), "iPad".to_string()),
        (Address([2; 6]), "Phone".to_string()),
        (Address([3; 6]), "Phone".to_string()),
    ]
}

#[test]
fn finding_a_device_by_alias() {
    assert_eq!(find_device(&hosts(), "iPad").unwrap().0, [1; 6]);
    assert!(matches!(find_device(&hosts(), "Phone"), Err(AddressError::MultipleAliases("Phone"))));
    assert!(matches!(find_device(&hosts(), "TV"), Err(AddressError::NoSuchAlias("TV"))));
    assert!(matches!(find_device(&vec![], "TV"), Err(AddressError::NoSuchAlias("TV"))));
}

#[test]
fn alias_search_steps() {
    let mut s = AliasSearch::new();
    assert!(s.observe(Address([1; 6]), &"a".to_string(), "b").is_ok());
    assert!(s.found.is_none());
    assert!(s.observe(Address([2; 6]), &"b".to_string(), "b").is_ok());
    assert!(s.found.unwrap().same(&Address([2; 6])));
    assert!(matches!(s.observe(Address([3; 6]), &"b".to_string(), "b"), Err(AddressError::MultipleAliases("b"))));
    assert!(s.finish("b").is_ok());
    assert!(matches!(AliasSearch::new().finish("z"), Err(AddressError::NoSuchAlias("z"))));
}

#[test]
fn error_messages() {
    assert_eq!(AddressError::AddressFormatting("x").message(), "Invalid MAC address formatting for \"x\"");
    assert_eq!(AddressError::NoSuchAlias("y").message(), "No dvices with alias \"y\"");
    assert_eq!(AddressError::MultipleAliases("z").message(), "Multiple devices with alias \"z\"");
    assert_eq!(ShortcutFormattingError::InvalidCharacter('-').message(), "Invalid character \"-\" in shortcut.");
    assert_eq!(ShortcutFormattingError::InvalidKey("FOO").message(), "Unknown key \"FOO\" in shortcut.");
}

#[test]
fn shortcut_parsing() {
    let s = Shortcut::parse("LEFTMETA+ESC").ok().unwrap();
    assert_eq!(s.keys(), &vec![125, 1]);
    let t = Shortcut::parse("  LEFTCTRL +\tC ").ok().unwrap();
    assert_eq!(t.keys(), &vec![29, 46]);
    let u = Shortcut::parse("\u{A0}LEFTMETA\u{3000}+\u{2009}ESC\u{85}").ok().unwrap();
    assert_eq!(u.keys(), &vec![125, 1]);
    assert!("\u{A0}\u{3000}\u{2009}\u{85}".chars().all(char::is_whitespace));
    assert!(matches!(Shortcut::parse("LEFT-META"), Err(ShortcutFormattingError::InvalidCharacter('-'))));
    assert!(matches!(Shortcut::parse("LEFT META"), Err(ShortcutFormattingError::InvalidCharacter(' '))));
    assert!(matches!(Shortcut::parse("FOO+ESC"), Err(ShortcutFormattingError::InvalidKey("FOO"))));
    assert!(matches!(Shortcut::parse("ESC+FOO+B-AR"), Err(ShortcutFormattingError::InvalidKey("FOO"))));
    assert!(matches!(Shortcut::parse(""), Err(ShortcutFormattingError::InvalidKey(""))));
    assert!(matches!(Shortcut::parse("A++B"), Err(ShortcutFormattingError::InvalidKey(""))));
}

#[test]
fn shortcut_text() {
    assert_eq!(Shortcut::new(vec![125, 1]).to_text(), "LEFTMETA+ESC");
    assert_eq!(Shortcut::new(vec![]).to_text(), "");
    assert_eq!(Shortcut::new(vec![0x110, 30]).to_text(), "<keycode: 272>+A");
    let s = Shortcut::parse(&Shortcut::new(vec![29, 56, 111]).to_text()).ok().unwrap();
    assert_eq!(s.keys(), &vec![29, 56, 111]);
}

#[test]
fn escape_shortcut_request() {
    let show = EscapeShortcut { bus: bus(false, false), shortcut: None };
    assert!(matches!(show.requested_shortcut(), Ok(None)));
    let set = EscapeShortcut { bus: bus(false, false), shortcut: Some("LEFTMETA+ESC".to_string()) };
    assert_eq!(set.requested_shortcut().ok().unwrap().unwrap().keys(), &vec![125, 1]);
    let bad = EscapeShortcut { bus: bus(false, false), shortcut: Some("X Y".to_string()) };
    assert!(bad.requested_shortcut().is_err());
}

fn entry(address: &str, keyboard: bool, mouse: bool, power: u8, name: &str) -> DeviceEntry {
    DeviceEntry { address: address.to_string(), keyboard, mouse, power, name: name.to_string() }
}

#[test]
fn device_listing() {
    let entries = vec![entry("AA", true, true, 0, "iPad"), entry("BB", false, true, 1, "PS4")];
    assert_eq!(render_device_list(&entries, false), "AA, \x1B[2mBB\x1B[22m\n");
    assert_eq!(
        render_device_list(&entries, true),
        "Address: AA, Name: iPad; Keyboard, Mouse\nAddress: \x1B[2mBB\x1B[22m, Name: PS4; Mouse\n"
    );
    assert_eq!(render_device_list(&vec![], false), "No devices connected.\n");
    assert_eq!(render_device_list(&vec![entry("CC", false, false, 0, "")], true), "Address: CC, Name: ; \n");
}

#[test]
fn bridge_bookkeeping() {
    let mut b = Bridges::new();
    assert!(!b.is_ours(0));
    b.keyboard = Some(4);
    b.mouse = Some(7);
    assert!(b.is_ours(4) && b.is_ours(7) && !b.is_ours(5));
    let mut h = BridgeHandle::new();
    assert!(h.handle.is_none());
    h.wrap().wrap(9);
    assert_eq!(h.handle, Some(9));
}

#[test]
fn power_values() {
    assert_eq!(power_status(true), PowerStatus::Suspended);
    assert_eq!(power_status(false), PowerStatus::Active);
}

#[test]
fn bus_failure_messages() {
    let step = ConnectStep::FailBoth;
    let e = step.failure(Some("no session".to_string()), None).unwrap();
    assert_eq!(
        e.message(),
        "Error connecting to DBus interace:\nError connecting to system bus: no session.\"us.colbystuff.Bluekey\" is not available on session bus."
    );
    let s = ConnectStep::FailSession.failure(None, Some("x".to_string())).unwrap();
    assert_eq!(s.message(), "\"us.colbystuff.Bluekey\" is not available on session bus.");
    let y = ConnectStep::FailSystem.failure(None, Some("down".to_string())).unwrap();
    assert_eq!(y.message(), "Error connecting to system bus: down.");
    assert!(ConnectStep::Use(Bus::Session).failure(None, None).is_none());
    assert_eq!(
        BusConnectionError::Session(Some("e".to_string())).message(),
        "Error connecting to sessioin bus: e"
    );
}
