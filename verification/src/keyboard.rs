use vstd::prelude::*;

use crate::address::{targets, Address, Target};
use crate::devices::{distinct_addresses, has_address, lookup, DeviceMap, DeviceState};
use crate::hid::{protocol_byte, protocol_of_write, ControlPointCommand, ControlPointRefused, Protocol};
use crate::leds::{led_changes, led_changes_upto, led_state, led_state_upto, Led};

verus! {

broadcast use vstd::array::group_array_axioms;

/// A key press or release for the keyboard server, as USB HID usage id.
#[derive(Clone, Copy, Debug)]
pub enum KeyboardEvent {
    PressKey(Target, u8),
    ReleaseKey(Target, u8),
}

/// What the keyboard server reports back to its users.
#[derive(Clone, Copy, Debug)]
pub enum KeyboardReturnEvent {
    Register(Address),
    LedOn(Address, Led),
    LedOff(Address, Led),
    Suspend(Address),
    Wake(Address),
}

/// The keyboard server stopped.
#[derive(Clone, Copy, Debug)]
pub struct KeyboardServerDied;

/// Why an event could not be queued for the keyboard server without waiting.
#[derive(Clone, Copy, Debug, PartialEq, Eq, Structural)]
pub enum KeyboardTrySendError {
    ServerDied,
    QueueFull,
}

/// Whether a usage id is one of the eight modifier keys (0xE0..=0xE7).
pub open spec fn is_modifier(key: u8) -> bool {
    0xE0 <= key <= 0xE7
}

/// The bit of a modifier key in the report's modifier byte.
pub open spec fn modifier_mask(key: u8) -> u8 {
    1u8 << ((key - 0xE0) as u8)
}

/// Position of the first `v` in `s` at or after position `i`.
pub open spec fn first_index_from(s: Seq<u8>, v: u8, i: int) -> Option<int>
    decreases s.len() - i,
{
    if i < 0 || i >= s.len() {
        None
    } else if s[i] == v {
        Some(i)
    } else {
        first_index_from(s, v, i + 1)
    }
}

/// Position of the first `v` in `s`.
pub open spec fn first_index(s: Seq<u8>, v: u8) -> Option<int> {
    first_index_from(s, v, 0)
}

/// Key slots after a press: a new non-modifier key takes the first empty slot (0);
/// with no empty slot, or a key already down, nothing changes.
pub open spec fn press_keys(keys: Seq<u8>, key: u8) -> Seq<u8> {
    if is_modifier(key) || keys.contains(key) {
        keys
    } else {
        match first_index(keys, 0) {
            Some(i) => keys.update(i, key),
            None => keys,
        }
    }
}

/// Modifier byte after a press: a modifier key sets its bit.
pub open spec fn press_modifiers(modifiers: u8, key: u8) -> u8 {
    if is_modifier(key) {
        modifiers | modifier_mask(key)
    } else {
        modifiers
    }
}

/// A press is reported for a modifier, and for a key that was not already down.
pub open spec fn press_reports(keys: Seq<u8>, key: u8) -> bool {
    is_modifier(key) || !keys.contains(key)
}

/// Key slots after a release: the first slot holding the key is emptied.
pub open spec fn release_keys(keys: Seq<u8>, key: u8) -> Seq<u8> {
    if is_modifier(key) {
        keys
    } else {
        match first_index(keys, key) {
            Some(i) => keys.update(i, 0),
            None => keys,
        }
    }
}

/// Modifier byte after a release: a modifier key clears its bit.
pub open spec fn release_modifiers(modifiers: u8, key: u8) -> u8 {
    if is_modifier(key) {
        modifiers & !modifier_mask(key)
    } else {
        modifiers
    }
}

/// A release is reported for a modifier, and for a key that was down.
pub open spec fn release_reports(keys: Seq<u8>, key: u8) -> bool {
    is_modifier(key) || first_index(keys, key) is Some
}

/// The 8-byte input report: modifier byte, a reserved zero byte, the six key slots.
pub open spec fn report_bytes(modifiers: u8, keys: Seq<u8>) -> Seq<u8> {
    seq![modifiers, 0u8] + keys
}

/// State of one emulated keyboard as seen by one host.
#[derive(Clone, Copy, Debug)]
pub struct KeyboardState {
    pub keys: [u8; 6],
    pub modifiers: u8,
    pub leds: u8,
    pub protocol: Protocol,
}

/// The state of a keyboard no key of which is down: no LEDs, boot protocol.
pub open spec fn keyboard_default() -> KeyboardState {
    KeyboardState { keys: [0u8, 0u8, 0u8, 0u8, 0u8, 0u8], modifiers: 0, leds: 0, protocol: Protocol::Boot }
}

impl DeviceState for KeyboardState {
    open spec fn fresh_spec() -> Self {
        keyboard_default()
    }

    fn fresh() -> (s: Self) {
        KeyboardState { keys: [0u8, 0u8, 0u8, 0u8, 0u8, 0u8], modifiers: 0, leds: 0, protocol: Protocol::Boot }
    }
}

/// Whether `new` is `old` after a press (`press`) or release of `key`, and whether
/// that change is reported.
pub open spec fn key_step(old: KeyboardState, new: KeyboardState, press: bool, key: u8, sent: bool) -> bool {
    &&& new.leds == old.leds
    &&& new.protocol == old.protocol
    &&& if press {
        &&& new.keys@ == press_keys(old.keys@, key)
        &&& new.modifiers == press_modifiers(old.modifiers, key)
        &&& sent == press_reports(old.keys@, key)
    } else {
        &&& new.keys@ == release_keys(old.keys@, key)
        &&& new.modifiers == release_modifiers(old.modifiers, key)
        &&& sent == release_reports(old.keys@, key)
    }
}

impl KeyboardState {
    /// A keyboard with no key down, no LED on, in boot protocol.
    pub fn new() -> (res: KeyboardState)
        ensures
            res == keyboard_default(),
    {
        KeyboardState::fresh()
    }

    /// Position of the first slot holding `v`.
    fn slot_of(&self, v: u8) -> (res: Option<usize>)
        ensures
            res matches Some(i) ==> i < 6 && first_index(self.keys@, v) == Some(i as int),
            res is None ==> first_index(self.keys@, v) is None,
            res is None <==> !self.keys@.contains(v),
    {
        let mut i: usize = 0;
        while i < 6
            invariant
                i <= 6,
                self.keys@.len() == 6,
                first_index(self.keys@, v) == first_index_from(self.keys@, v, i as int),
                forall|j: int| 0 <= j < i ==> self.keys@[j] != v,
            decreases 6 - i,
        {
            if self.keys[i] == v {
                assert(self.keys@.contains(v));
                return Some(i);
            }
            i = i + 1;
        }
        None
    }

    /// Applies a key press. Returns whether the change must be reported to the host.
    pub fn press(&mut self, key: u8) -> (sent: bool)
        ensures
            key_step(*old(self), *final(self), true, key, sent),
            0xE0 <= key <= 0xE7 ==> sent && final(self).keys == old(self).keys && final(self).modifiers == (
            old(self).modifiers | (1u8 << ((key - 0xE0) as u8))),
    {
        if 0xE0 <= key && key <= 0xE7 {
            let index = key - 0xE0;
            self.modifiers = self.modifiers | (1u8 << index);
            true
        } else {
            match self.slot_of(key) {
                Some(_) => false,
                None => {
                    match self.slot_of(0) {
                        Some(empty) => {
                            self.keys[empty] = key;
                        },
                        None => {},
                    }
                    true
                },
            }
        }
    }

    /// Applies a key release. Returns whether the change must be reported to the host.
    pub fn release(&mut self, key: u8) -> (sent: bool)
        ensures
            key_step(*old(self), *final(self), false, key, sent),
            0xE0 <= key <= 0xE7 ==> sent && final(self).keys == old(self).keys && final(self).modifiers == (
            old(self).modifiers & !(1u8 << ((key - 0xE0) as u8))),
    {
        if 0xE0 <= key && key <= 0xE7 {
            let index = key - 0xE0;
            self.modifiers = self.modifiers & !(1u8 << index);
            true
        } else {
            match self.slot_of(key) {
                Some(slot) => {
                    self.keys[slot] = 0;
                    true
                },
                None => false,
            }
        }
    }

    /// The input report describing this keyboard's keys and modifiers.
    pub fn report(&self) -> (res: [u8; 8])
        ensures
            res@ == report_bytes(self.modifiers, self.keys@),
    {
        let mut report = [0u8; 8];
        report[0] = self.modifiers;
        let mut i: usize = 0;
        while i < 6
            invariant
                i <= 6,
                report@.len() == 8,
                report@[0] == self.modifiers,
                report@[1] == 0,
                forall|j: int| 0 <= j < i ==> report@[j + 2] == self.keys@[j],
            decreases 6 - i,
        {
            report[i + 2] = self.keys[i];
            i = i + 1;
        }
        assert(report@ =~= report_bytes(self.modifiers, self.keys@));
        report
    }

    /// The report as it is read from the Input Report characteristics.
    pub fn report_vec(&self) -> (res: Vec<u8>)
        ensures
            res@ == report_bytes(self.modifiers, self.keys@),
    {
        let mut data: Vec<u8> = Vec::new();
        data.push(self.modifiers);
        data.push(0);
        let mut i: usize = 0;
        while i < 6
            invariant
                i <= 6,
                data@ == seq![self.modifiers, 0u8] + self.keys@.take(i as int),
            decreases 6 - i,
        {
            data.push(self.keys[i]);
            assert(self.keys@.take(i + 1) == self.keys@.take(i as int).push(self.keys@[i as int]));
            i = i + 1;
        }
        assert(self.keys@.take(6) == self.keys@);
        data
    }

    /// The on/off state of the five report LEDs (NumLock, CapsLock, ScrollLock, Compose, Kana).
    pub fn led_state(&self) -> (res: Vec<(Led, bool)>)
        ensures
            res@ == led_state_upto(self.leds, 5),
    {
        led_state(self.leds)
    }
}

/// The report a key event makes one keyboard send, if any: its protocol and bytes.
pub open spec fn key_event_report(s: KeyboardState, press: bool, key: u8) -> Option<(Protocol, Seq<u8>)> {
    if press {
        if press_reports(s.keys@, key) {
            Some((s.protocol, report_bytes(press_modifiers(s.modifiers, key), press_keys(s.keys@, key))))
        } else {
            None
        }
    } else {
        if release_reports(s.keys@, key) {
            Some((s.protocol, report_bytes(release_modifiers(s.modifiers, key), release_keys(s.keys@, key))))
        } else {
            None
        }
    }
}

/// The reports a key event for `target` makes the first `n` known keyboards send, in order.
pub open spec fn key_event_reports(
    entries: Seq<(Address, KeyboardState)>,
    target: Target,
    press: bool,
    key: u8,
    n: nat,
) -> Seq<(Address, Protocol, Seq<u8>)>
    decreases n,
{
    if n == 0 {
        Seq::empty()
    } else {
        let prev = key_event_reports(entries, target, press, key, (n - 1) as nat);
        let e = entries[n - 1];
        if targets(target, e.0) {
            match key_event_report(e.1, press, key) {
                Some((p, bytes)) => prev.push((e.0, p, bytes)),
                None => prev,
            }
        } else {
            prev
        }
    }
}

/// What a host reads from the Protocol Mode characteristic: its protocol, report
/// protocol for a host not heard from yet.
pub open spec fn protocol_read(entries: Seq<(Address, KeyboardState)>, address: Address) -> Seq<u8> {
    seq![protocol_byte(
        match lookup(entries, address) {
            Some(s) => s.protocol,
            None => Protocol::Boot,
        },
    )]
}

/// What a host reads from an input report characteristic: its keyboard's report, an
/// empty report for a host not heard from yet.
pub open spec fn input_report_read(entries: Seq<(Address, KeyboardState)>, address: Address) -> Seq<u8> {
    match lookup(entries, address) {
        Some(s) => report_bytes(s.modifiers, s.keys@),
        None => report_bytes(0, seq![0u8, 0, 0, 0, 0, 0]),
    }
}

/// What a host reads from the LED output report: its LED byte, 0 for a host not heard
/// from yet.
pub open spec fn leds_read(entries: Seq<(Address, KeyboardState)>, address: Address) -> Seq<u8> {
    seq![match lookup(entries, address) {
        Some(s) => s.leds,
        None => 0u8,
    }]
}

/// The target of a key event.
pub open spec fn key_event_target(event: KeyboardEvent) -> Target {
    match event {
        KeyboardEvent::PressKey(t, _) => t,
        KeyboardEvent::ReleaseKey(t, _) => t,
    }
}

/// Whether a key event is a press.
pub open spec fn key_event_press(event: KeyboardEvent) -> bool {
    event is PressKey
}

/// The key (USB usage) of a key event.
pub open spec fn key_event_key(event: KeyboardEvent) -> u8 {
    match event {
        KeyboardEvent::PressKey(_, k) => k,
        KeyboardEvent::ReleaseKey(_, k) => k,
    }
}

/// How the server's keyboards change with a key event: the hosts stay in place; each
/// targeted keyboard takes the press or release (reported when `key_event_report`
/// gives a report), the others are unchanged.
pub open spec fn key_event_step(
    old: Seq<(Address, KeyboardState)>,
    new: Seq<(Address, KeyboardState)>,
    event: KeyboardEvent,
) -> bool {
    let (target, press, key) = (key_event_target(event), key_event_press(event), key_event_key(event));
    &&& new.len() == old.len()
    &&& forall|i: int|
        0 <= i < old.len() ==> {
            let o = #[trigger] old[i];
            let n = new[i];
            &&& n.0 == o.0
            &&& targets(target, o.0) ==> key_step(o.1, n.1, press, key, key_event_report(o.1, press, key) is Some)
            &&& !targets(target, o.0) ==> n.1 == o.1
        }
}

/// An input report to send to one host, through the characteristic of `protocol`.
pub struct KeyboardReport {
    pub address: Address,
    pub protocol: Protocol,
    pub report: [u8; 8],
}

impl View for KeyboardReport {
    type V = (Address, Protocol, Seq<u8>);

    open spec fn view(&self) -> (Address, Protocol, Seq<u8>) {
        (self.address, self.protocol, self.report@)
    }
}

/// The state of the keyboard server: one emulated keyboard per host that has used it.
pub struct KeyboardServer {
    devices: DeviceMap<KeyboardState>,
}

impl KeyboardServer {
    /// The hosts known to the server, with their keyboard state.
    pub closed spec fn entries(&self) -> Seq<(Address, KeyboardState)> {
        self.devices.entries()
    }

    /// No host is recorded twice (always so: the device map keeps it).
    pub open spec fn wf(&self) -> bool {
        distinct_addresses(self.entries())
    }

    /// A server that knows no host.
    pub fn new() -> (res: KeyboardServer)
        ensures
            res.wf(),
            res.entries() == Seq::<(Address, KeyboardState)>::empty(),
    {
        KeyboardServer { devices: DeviceMap::new() }
    }

    /// Applies a key press or release to every keyboard the event targets, and returns
    /// the reports to send, in the order of the known hosts.
    pub fn key_event(&mut self, event: KeyboardEvent) -> (reports: Vec<KeyboardReport>)
        ensures
            final(self).wf(),
            key_event_step(old(self).entries(), final(self).entries(), event),
            reports@.map_values(|r: KeyboardReport| r@) == key_event_reports(
                old(self).entries(),
                key_event_target(event),
                key_event_press(event),
                key_event_key(event),
                old(self).entries().len(),
            ),
    {
        proof {
            use_type_invariant(&self.devices);
        }
        let (target, press, key) = match event {
            KeyboardEvent::PressKey(t, k) => (t, true, k),
            KeyboardEvent::ReleaseKey(t, k) => (t, false, k),
        };
        let ghost start = self.entries();
        let mut reports: Vec<KeyboardReport> = Vec::new();
        let mut i: usize = 0;
        let len = self.devices.len();
        while i < len
            invariant
                len == start.len(),
                i <= len,
                self.devices.wf(),
                self.devices.entries().len() == len,
                forall|j: int| i <= j < len ==> self.devices.entries()[j] == start[j],
                forall|j: int|
                    0 <= j < i ==> {
                        let o = #[trigger] start[j];
                        let n = self.devices.entries()[j];
                        &&& n.0 == o.0
                        &&& targets(target, o.0) ==> key_step(o.1, n.1, press, key, key_event_report(o.1, press, key) is Some)
                        &&& !targets(target, o.0) ==> n.1 == o.1
                    },
                reports@.map_values(|r: KeyboardReport| r@) == key_event_reports(start, target, press, key, i as nat),
            decreases len - i,
        {
            let (address, state) = self.devices.entry(i);
            if target.includes(address) {
                let mut s = state;
                let sent = if press {
                    s.press(key)
                } else {
                    s.release(key)
                };
                self.devices.set_state(i, s);
                if sent {
                    let report = s.report();
                    let r = KeyboardReport { address, protocol: s.protocol, report };
                    reports.push(r);
                }
            }
            assert(reports@.map_values(|r: KeyboardReport| r@) =~= key_event_reports(start, target, press, key, (i + 1) as nat));
            i = i + 1;
        }
        reports
    }

    /// A host subscribed to input reports (boot or report protocol): the host is recorded.
    /// Returns the registration to announce when the host is new.
    pub fn notify(&mut self, address: Address) -> (res: Option<KeyboardReturnEvent>)
        ensures
            final(self).wf(),
            has_address(final(self).entries(), address),
            res is Some <==> !has_address(old(self).entries(), address),
            res matches Some(e) ==> e == KeyboardReturnEvent::Register(address),
            res is None ==> final(self).entries() == old(self).entries(),
            res is Some ==> final(self).entries() == old(self).entries().push((address, keyboard_default())),
    {
        let (_, new) = self.devices.acquire_device(address);
        if new {
            Some(KeyboardReturnEvent::Register(address))
        } else {
            None
        }
    }

    /// A host went away: its keyboard state is dropped.
    pub fn disconnect(&mut self, address: Address) -> (res: bool)
        ensures
            final(self).wf(),
            res == has_address(old(self).entries(), address),
            !has_address(final(self).entries(), address),
            !res ==> final(self).entries() == old(self).entries(),
            forall|a: Address| a != address ==> lookup(#[trigger] final(self).entries(), a) == lookup(old(self).entries(), a),
    {
        self.devices.disconnect_device(address)
    }

    /// The keyboard state of a host, if known.
    pub fn device(&self, address: Address) -> (res: Option<KeyboardState>)
        ensures
            res == lookup(self.entries(), address),
    {
        self.devices.get_device(address)
    }

    /// The keyboard state of a host; a host not heard from yet reads as a fresh keyboard.
    fn state_or_default(&self, address: Address) -> (res: KeyboardState)
        ensures
            res == (match lookup(self.entries(), address) {
                Some(s) => s,
                None => keyboard_default(),
            }),
    {
        match self.devices.get_device(address) {
            Some(s) => s,
            None => KeyboardState::new(),
        }
    }

    /// The addresses of all known hosts.
    pub fn addresses(&self) -> (res: Vec<Address>)
        ensures
            res@ == self.entries().map_values(|e: (Address, KeyboardState)| e.0),
    {
        self.devices.addresses()
    }

    /// A read of the Protocol Mode characteristic by a host.
    pub fn read_protocol(&self, address: Address) -> (res: Vec<u8>)
        ensures
            res@ == protocol_read(self.entries(), address),
    {
        let s = self.state_or_default(address);
        let mut res = Vec::new();
        res.push(s.protocol.into_u8());
        res
    }

    /// A read of an input report characteristic (boot or report protocol) by a host.
    pub fn read_input_report(&self, address: Address) -> (res: Vec<u8>)
        ensures
            res@ == input_report_read(self.entries(), address),
    {
        let s = self.state_or_default(address);
        let res = s.report_vec();
        assert(keyboard_default().keys@ =~= seq![0u8, 0, 0, 0, 0, 0]);
        res
    }

    /// A read of the LED output report by a host.
    pub fn read_leds(&self, address: Address) -> (res: Vec<u8>)
        ensures
            res@ == leds_read(self.entries(), address),
    {
        let s = self.state_or_default(address);
        let mut res = Vec::new();
        res.push(s.leds);
        res
    }

    /// Reads of the boot keyboard output characteristic always answer a single zero byte.
    pub fn read_boot_output(&self) -> (res: Vec<u8>)
        ensures
            res@ == seq![0u8],
    {
        let mut res = Vec::new();
        res.push(0u8);
        res
    }

    /// A write to the Protocol Mode characteristic by a host: a valid protocol byte
    /// records the host (if new) and switches its protocol; anything else is ignored.
    pub fn write_protocol(&mut self, address: Address, value: &[u8]) -> (res: Option<KeyboardReturnEvent>)
        ensures
            final(self).wf(),
            forall|a: Address| a != address ==> lookup(#[trigger] final(self).entries(), a) == lookup(old(self).entries(), a),
            match protocol_of_write(value@) {
                None => res is None && final(self).entries() == old(self).entries(),
                Some(p) => {
                    &&& (res is Some <==> !has_address(old(self).entries(), address))
                    &&& (res matches Some(e) ==> e == KeyboardReturnEvent::Register(address))
                    &&& lookup(final(self).entries(), address) == Some(
                        KeyboardState {
                            protocol: p,
                            ..match lookup(old(self).entries(), address) {
                                Some(s) => s,
                                None => keyboard_default(),
                            }
                        },
                    )
                },
            },
    {
        proof {
            use_type_invariant(&self.devices);
        }
        match Protocol::from_write(value) {
            None => None,
            Some(p) => {
                let (i, new) = self.acquire(address);
                let mut s = self.devices.entry(i).1;
                s.protocol = p;
                self.devices.set_state(i, s);
                proof { self.lemma_lookup_at(i as int); }
                if new {
                    Some(KeyboardReturnEvent::Register(address))
                } else {
                    None
                }
            },
        }
    }

    /// A write to the boot keyboard output characteristic: the host (recorded if new)
    /// has its LED byte set to the first byte written.
    pub fn write_boot_output(&mut self, address: Address, value: &[u8]) -> (res: Option<KeyboardReturnEvent>)
        requires
            value@.len() >= 1,
        ensures
            final(self).wf(),
            forall|a: Address| a != address ==> lookup(#[trigger] final(self).entries(), a) == lookup(old(self).entries(), a),
            res is Some <==> !has_address(old(self).entries(), address),
            res matches Some(e) ==> e == KeyboardReturnEvent::Register(address),
            lookup(final(self).entries(), address) == Some(
                KeyboardState {
                    leds: value@[0],
                    ..match lookup(old(self).entries(), address) {
                        Some(s) => s,
                        None => keyboard_default(),
                    }
                },
            ),
    {
        let (i, new) = self.acquire(address);
        let mut s = self.devices.entry(i).1;
        s.leds = value[0];
        self.devices.set_state(i, s);
        proof { self.lemma_lookup_at(i as int); }
        if new {
            Some(KeyboardReturnEvent::Register(address))
        } else {
            None
        }
    }

    /// A write to the LED output report: the host (recorded if new) has its LED byte set
    /// to the first byte written, and every report LED that changed is announced.
    /// The registration of a new host comes first.
    pub fn write_leds(&mut self, address: Address, data: &[u8]) -> (res: Vec<KeyboardReturnEvent>)
        requires
            data@.len() >= 1,
        ensures
            final(self).wf(),
            forall|a: Address| a != address ==> lookup(#[trigger] final(self).entries(), a) == lookup(old(self).entries(), a),
            ({
                let before = match lookup(old(self).entries(), address) {
                    Some(s) => s,
                    None => keyboard_default(),
                };
                let changes = led_changes_upto(before.leds, data@[0], 5).map_values(
                    |c: (Led, bool)|
                        if c.1 {
                            KeyboardReturnEvent::LedOn(address, c.0)
                        } else {
                            KeyboardReturnEvent::LedOff(address, c.0)
                        },
                );
                &&& lookup(final(self).entries(), address) == Some(KeyboardState { leds: data@[0], ..before })
                &&& res@ == if has_address(old(self).entries(), address) {
                    changes
                } else {
                    seq![KeyboardReturnEvent::Register(address)] + changes
                }
            }),
    {
        let (i, new) = self.acquire(address);
        let mut s = self.devices.entry(i).1;
        let old_leds = s.leds;
        s.leds = data[0];
        self.devices.set_state(i, s);
        proof { self.lemma_lookup_at(i as int); }
        let changes = led_changes(old_leds, data[0]);
        let mut res: Vec<KeyboardReturnEvent> = Vec::new();
        if new {
            res.push(KeyboardReturnEvent::Register(address));
        }
        let ghost prefix = res@;
        let mut k: usize = 0;
        while k < changes.len()
            invariant
                k <= changes@.len(),
                res@ == prefix + changes@.take(k as int).map_values(
                    |c: (Led, bool)|
                        if c.1 {
                            KeyboardReturnEvent::LedOn(address, c.0)
                        } else {
                            KeyboardReturnEvent::LedOff(address, c.0)
                        },
                ),
            decreases changes@.len() - k,
        {
            let (led, on) = changes[k];
            if on {
                res.push(KeyboardReturnEvent::LedOn(address, led));
            } else {
                res.push(KeyboardReturnEvent::LedOff(address, led));
            }
            assert(changes@.take(k + 1) == changes@.take(k as int).push(changes@[k as int]));
            k = k + 1;
        }
        assert(changes@.take(k as int) == changes@);
        res
    }

    /// A write to the HID Control Point by a host: 1 (going to sleep) suspends, 0 wakes,
    /// anything else is refused.
    pub fn control_point(&self, address: Address, value: &[u8]) -> (res: Result<KeyboardReturnEvent, ControlPointRefused>)
        requires
            value@.len() >= 1,
        ensures
            value@[0] == 1 ==> res == Ok::<KeyboardReturnEvent, ControlPointRefused>(KeyboardReturnEvent::Suspend(address)),
            value@[0] == 0 ==> res == Ok::<KeyboardReturnEvent, ControlPointRefused>(KeyboardReturnEvent::Wake(address)),
            value@[0] > 1 ==> res is Err,
    {
        match crate::hid::decode_control_point(value) {
            Ok(ControlPointCommand::Suspend) => Ok(KeyboardReturnEvent::Suspend(address)),
            Ok(ControlPointCommand::Wake) => Ok(KeyboardReturnEvent::Wake(address)),
            Err(e) => Err(e),
        }
    }

    /// Finds the host's entry, recording it when new; the returned flag says it was new.
    fn acquire(&mut self, address: Address) -> (res: (usize, bool))
        ensures
            final(self).wf(),
            forall|a: Address| a != address ==> lookup(#[trigger] final(self).entries(), a) == lookup(old(self).entries(), a),
            res.0 < final(self).entries().len(),
            final(self).entries()[res.0 as int] == (address, match lookup(old(self).entries(), address) {
                Some(s) => s,
                None => keyboard_default(),
            }),
            res.1 == !has_address(old(self).entries(), address),
            !res.1 ==> final(self).entries() == old(self).entries(),
            res.1 ==> final(self).entries() == old(self).entries().push((address, keyboard_default())),
    {
        let r = self.devices.acquire_device(address);
        proof {
            if !r.1 {
                self.lemma_lookup_at(r.0 as int);
            }
        }
        r
    }

    /// In a well-formed server, the entry at position `i` is what `lookup` finds for its address.
    proof fn lemma_lookup_at(&self, i: int)
        requires
            self.wf(),
            0 <= i < self.entries().len(),
        ensures
            lookup(self.entries(), self.entries()[i].0) == Some(self.entries()[i].1),
    {
        let e = self.entries();
        let a = e[i].0;
        assert(has_address(e, a));
        let k = choose|k: int| 0 <= k < e.len() && e[k].0 == a;
        assert(k == i);
    }
}

/// Whether no key usage other than 0 (an empty slot) occurs twice among the slots.
pub open spec fn keys_distinct(keys: Seq<u8>) -> bool {
    forall|i: int, j: int| 0 <= i < keys.len() && 0 <= j < keys.len() && i != j && keys[i] != 0 ==> keys[i] != keys[j]
}

/// `first_index` finds the first occurrence, when there is one.
proof fn lemma_first_index(s: Seq<u8>, v: u8, i: int)
    requires
        0 <= i <= s.len(),
    ensures
        first_index_from(s, v, i) matches Some(k) ==> i <= k < s.len() && s[k] == v && forall|j: int| i <= j < k ==> s[j] != v,
        first_index_from(s, v, i) is None ==> forall|j: int| i <= j < s.len() ==> s[j] != v,
    decreases s.len() - i,
{
    if i < s.len() && s[i] != v {
        lemma_first_index(s, v, i + 1);
    }
}

/// A keyboard never reports a key twice: pressing and releasing keep the key slots
/// free of duplicates.
pub proof fn lemma_keys_stay_distinct(keys: Seq<u8>, key: u8)
    requires
        keys_distinct(keys),
    ensures
        keys_distinct(press_keys(keys, key)),
        keys_distinct(release_keys(keys, key)),
{
    lemma_first_index(keys, 0, 0);
    lemma_first_index(keys, key, 0);
}

/// Releasing a key undoes pressing it: for a key that is not down, with a free slot,
/// a press followed by a release gives back the key slots; for a modifier that is up,
/// the modifier byte.
pub proof fn lemma_release_undoes_press(keys: Seq<u8>, modifiers: u8, key: u8)
    requires
        keys_distinct(keys),
        key != 0,
        !keys.contains(key),
        keys.contains(0u8),
        is_modifier(key) ==> modifiers & modifier_mask(key) == 0,
    ensures
        release_keys(press_keys(keys, key), key) == keys,
        release_modifiers(press_modifiers(modifiers, key), key) == modifiers,
        press_reports(keys, key),
        release_reports(press_keys(keys, key), key),
{
    lemma_first_index(keys, 0, 0);
    if !is_modifier(key) {
        let k = first_index(keys, 0).unwrap();
        let pressed = keys.update(k, key);
        lemma_first_index(pressed, key, 0);
        assert(pressed[k] == key);
        assert forall|j: int| 0 <= j < pressed.len() && j != k implies pressed[j] != key by {
            assert(pressed[j] == keys[j]);
            if keys[j] == key {
                assert(keys.contains(key));
            }
        }
        assert(first_index(pressed, key) is Some);
        let r = first_index(pressed, key).unwrap();
        assert(r == k);
        assert(pressed.update(k, 0) =~= keys);
    } else {
        let m = (key - 0xE0) as u8;
        assert(m < 8);
        assert((modifiers & (1u8 << m)) == 0 ==> ((modifiers | (1u8 << m)) & !(1u8 << m)) == modifiers) by (bit_vector);
    }
}

/// A key event for one host makes at most one report, and none when the host is
/// not known.
pub proof fn lemma_target_isolated(entries: Seq<(Address, KeyboardState)>, target: Address, press: bool, key: u8)
    requires
        distinct_addresses(entries),
    ensures
        key_event_reports(entries, Target::Target(target), press, key, entries.len()).len() <= 1,
        !has_address(entries, target) ==> key_event_reports(entries, Target::Target(target), press, key, entries.len()).len() == 0,
{
    lemma_target_reports_bound(entries, target, press, key, entries.len());
}

/// The reports of a key event for one host among the first `n` keyboards: at most one,
/// and one only if the host is among them.
proof fn lemma_target_reports_bound(entries: Seq<(Address, KeyboardState)>, target: Address, press: bool, key: u8, n: nat)
    requires
        distinct_addresses(entries),
        n <= entries.len(),
    ensures
        key_event_reports(entries, Target::Target(target), press, key, n).len() <= if exists|i: int| 0 <= i < n && entries[i].0 == target {
            1int
        } else {
            0int
        },
        key_event_reports(entries, Target::Target(target), press, key, n).len() == 1 ==> exists|i: int|
            0 <= i < n && entries[i].0 == target,
    decreases n,
{
    if n > 0 {
        lemma_target_reports_bound(entries, target, press, key, (n - 1) as nat);
        if entries[n - 1].0 == target {
            assert forall|i: int| 0 <= i < n - 1 implies entries[i].0 != target by {
                assert(entries[i].0 != entries[n - 1].0);
            }
        }
    }
}

/// A host reads back what it wrote: once a write has recorded a keyboard state for a
/// host (the protocol it chose, the LED byte it sent), the host's reads of the protocol,
/// of the LED report and of the input report answer from that state.
pub proof fn lemma_keyboard_reads_back(entries: Seq<(Address, KeyboardState)>, address: Address, s: KeyboardState)
    requires
        lookup(entries, address) == Some(s),
    ensures
        protocol_read(entries, address) == seq![protocol_byte(s.protocol)],
        leds_read(entries, address) == seq![s.leds],
        input_report_read(entries, address) == report_bytes(s.modifiers, s.keys@),
{
}

/// Whether key slots are sound: no key is in two slots, and no slot holds a modifier
/// key (modifiers live in the modifier byte).
pub open spec fn keys_valid(keys: Seq<u8>) -> bool {
    &&& keys_distinct(keys)
    &&& forall|i: int| 0 <= i < keys.len() ==> !is_modifier(#[trigger] keys[i])
}

/// The key slots after a run of key events (`true` = press), in order.
pub open spec fn keys_after(keys: Seq<u8>, events: Seq<(bool, u8)>) -> Seq<u8>
    decreases events.len(),
{
    if events.len() == 0 {
        keys
    } else {
        let prev = keys_after(keys, events.drop_last());
        let (press, key) = events.last();
        if press {
            press_keys(prev, key)
        } else {
            release_keys(prev, key)
        }
    }
}

/// One press or release keeps the key slots sound.
pub proof fn lemma_keys_stay_valid(keys: Seq<u8>, key: u8)
    requires
        keys_valid(keys),
    ensures
        keys_valid(press_keys(keys, key)),
        keys_valid(release_keys(keys, key)),
        press_keys(keys, key).len() == keys.len(),
        release_keys(keys, key).len() == keys.len(),
{
    lemma_keys_stay_distinct(keys, key);
    lemma_first_index(keys, 0, 0);
    lemma_first_index(keys, key, 0);
    let p = press_keys(keys, key);
    assert forall|i: int| 0 <= i < p.len() implies !is_modifier(#[trigger] p[i]) by {
        if !is_modifier(key) && !keys.contains(key) && first_index(keys, 0) is Some {
            let k = first_index(keys, 0).unwrap();
            if i != k {
                assert(p[i] == keys[i]);
            }
        } else {
            assert(p[i] == keys[i]);
        }
    }
    let r = release_keys(keys, key);
    assert forall|i: int| 0 <= i < r.len() implies !is_modifier(#[trigger] r[i]) by {
        if !is_modifier(key) && first_index(keys, key) is Some {
            let k = first_index(keys, key).unwrap();
            if i != k {
                assert(r[i] == keys[i]);
            }
        } else {
            assert(r[i] == keys[i]);
        }
    }
}

/// Whatever key events a keyboard gets, starting with no key down, its six slots never
/// hold a key twice nor a modifier key.
pub proof fn lemma_keys_valid_from_start(events: Seq<(bool, u8)>)
    ensures
        keys_valid(keys_after(keyboard_default().keys@, events)),
        keys_after(keyboard_default().keys@, events).len() == 6,
    decreases events.len(),
{
    if events.len() == 0 {
        assert(keyboard_default().keys@ =~= seq![0u8, 0, 0, 0, 0, 0]);
    } else {
        lemma_keys_valid_from_start(events.drop_last());
        let prev = keys_after(keyboard_default().keys@, events.drop_last());
        lemma_keys_stay_valid(prev, events.last().1);
    }
}

/// A report a key event makes a keyboard send is the new state of that keyboard: its
/// protocol, then its modifier byte, a zero byte and its six slots.
pub proof fn lemma_report_is_new_state(old: KeyboardState, new: KeyboardState, press: bool, key: u8, sent: bool)
    requires
        key_step(old, new, press, key, sent),
    ensures
        key_event_report(old, press, key) matches Some((p, bytes)) ==> p == new.protocol && bytes == report_bytes(
            new.modifiers,
            new.keys@,
        ),
{
}

/// The law of a server's keyboards over any run of key events: starting with every
/// known keyboard in its default state, after each event (`states[i + 1]` is what
/// `key_event` leaves of `states[i]` on `events[i]`) no keyboard's slots hold a key
/// twice or a modifier key, and every report an event makes is its keyboard's new
/// state: that keyboard's protocol, then its modifier byte, a zero byte and its slots.
pub proof fn lemma_key_event_run(states: Seq<Seq<(Address, KeyboardState)>>, events: Seq<KeyboardEvent>)
    requires
        states.len() == events.len() + 1,
        forall|j: int| 0 <= j < states[0].len() ==> (#[trigger] states[0][j]).1 == keyboard_default(),
        forall|i: int| 0 <= i < events.len() ==> key_event_step(states[i], states[i + 1], #[trigger] events[i]),
    ensures
        forall|i: int, j: int| 0 <= i < states.len() && 0 <= j < states[i].len() ==> keys_valid(#[trigger] states[i][j].1.keys@),
        forall|i: int, j: int|
            0 <= i < events.len() && 0 <= j < states[i].len() && targets(key_event_target(events[i]), states[i][j].0)
                ==> match key_event_report(#[trigger] states[i][j].1, key_event_press(events[i]), key_event_key(events[i])) {
                Some((p, bytes)) => p == states[i + 1][j].1.protocol && bytes == report_bytes(
                    states[i + 1][j].1.modifiers,
                    states[i + 1][j].1.keys@,
                ),
                None => true,
            },
{
    assert forall|i: int, j: int| 0 <= i < states.len() && 0 <= j < states[i].len() implies keys_valid(
        #[trigger] states[i][j].1.keys@,
    ) by {
        lemma_run_keys_valid(states, events, i);
    }
    assert forall|i: int, j: int|
        0 <= i < events.len() && 0 <= j < states[i].len() && targets(key_event_target(events[i]), states[i][j].0) implies match key_event_report(
        #[trigger] states[i][j].1,
        key_event_press(events[i]),
        key_event_key(events[i]),
    ) {
        Some((p, bytes)) => p == states[i + 1][j].1.protocol && bytes == report_bytes(
            states[i + 1][j].1.modifiers,
            states[i + 1][j].1.keys@,
        ),
        None => true,
    } by {
        assert(key_event_step(states[i], states[i + 1], events[i]));
        let o = states[i][j];
        let n = states[i + 1][j];
        let press = key_event_press(events[i]);
        let key = key_event_key(events[i]);
        assert(key_step(o.1, n.1, press, key, key_event_report(o.1, press, key) is Some));
        lemma_report_is_new_state(o.1, n.1, press, key, key_event_report(o.1, press, key) is Some);
    }
}

/// Along such a run, the keyboards after `k` events all have sound slots.
proof fn lemma_run_keys_valid(states: Seq<Seq<(Address, KeyboardState)>>, events: Seq<KeyboardEvent>, k: int)
    requires
        states.len() == events.len() + 1,
        forall|j: int| 0 <= j < states[0].len() ==> (#[trigger] states[0][j]).1 == keyboard_default(),
        forall|i: int| 0 <= i < events.len() ==> key_event_step(states[i], states[i + 1], #[trigger] events[i]),
        0 <= k < states.len(),
    ensures
        forall|j: int| 0 <= j < states[k].len() ==> keys_valid(#[trigger] states[k][j].1.keys@),
    decreases k,
{
    if k == 0 {
        lemma_keys_valid_from_start(Seq::empty());
        assert forall|j: int| 0 <= j < states[0].len() implies keys_valid(#[trigger] states[0][j].1.keys@) by {
            assert(states[0][j].1 == keyboard_default());
        }
    } else {
        lemma_run_keys_valid(states, events, k - 1);
        assert(key_event_step(states[k - 1], states[k], events[k - 1]));
        assert forall|j: int| 0 <= j < states[k].len() implies keys_valid(#[trigger] states[k][j].1.keys@) by {
            let o = states[k - 1][j];
            let n = states[k][j];
            assert(keys_valid(o.1.keys@));
            lemma_keys_stay_valid(o.1.keys@, key_event_key(events[k - 1]));
        }
    }
}

/// The eight modifier keys (usages 0xE0..=0xE7: left Ctrl, Shift, Alt, GUI, then the
/// right ones) are bits of the modifier byte: pressing one sets bit `key - 0xE0`,
/// releasing it clears that bit; either way the six key slots are unchanged and the
/// change is reported.
pub proof fn lemma_modifier_keys_are_bits(old: KeyboardState, new: KeyboardState, key: u8, sent: bool)
    requires
        0xE0 <= key <= 0xE7,
    ensures
        key_step(old, new, true, key, sent) ==> sent && new.keys@ == old.keys@ && new.modifiers == (old.modifiers | (1u8
            << ((key - 0xE0) as u8))),
        key_step(old, new, false, key, sent) ==> sent && new.keys@ == old.keys@ && new.modifiers == (old.modifiers
            & !(1u8 << ((key - 0xE0) as u8))),
{
}

/// A key that is not a modifier (outside 0xE0..=0xE7) and not down goes into the first
/// empty slot (usage 0) when there is one, and nothing else changes; with every slot
/// taken the slots stay as they are. A key already down changes nothing.
pub proof fn lemma_press_takes_first_free_slot(keys: Seq<u8>, key: u8)
    requires
        !(0xE0 <= key <= 0xE7),
    ensures
        keys.contains(key) ==> press_keys(keys, key) == keys,
        !keys.contains(key) ==> (forall|j: int| 0 <= j < keys.len() ==> keys[j] != 0) ==> press_keys(keys, key) == keys,
        !keys.contains(key) ==> forall|i: int|
            0 <= i < keys.len() && keys[i] == 0 && (forall|j: int| 0 <= j < i ==> keys[j] != 0) ==> press_keys(keys, key)
                == keys.update(i, key),
{
    lemma_first_index(keys, 0, 0);
    if !keys.contains(key) {
        assert forall|i: int|
            0 <= i < keys.len() && keys[i] == 0 && (forall|j: int| 0 <= j < i ==> keys[j] != 0) implies press_keys(keys, key)
                == keys.update(i, key) by {
            let k = first_index(keys, 0).unwrap();
            assert(keys[k] == 0);
            assert(k == i);
        }
    }
}

/// Releasing a key that is not a modifier empties the first slot holding it (sets it to
/// 0), and nothing else changes; releasing a key that is not down changes nothing.
pub proof fn lemma_release_empties_its_slot(keys: Seq<u8>, key: u8)
    requires
        !(0xE0 <= key <= 0xE7),
    ensures
        !keys.contains(key) ==> release_keys(keys, key) == keys,
        forall|i: int|
            0 <= i < keys.len() && keys[i] == key && (forall|j: int| 0 <= j < i ==> keys[j] != key) ==> release_keys(keys, key)
                == keys.update(i, 0),
{
    lemma_first_index(keys, key, 0);
    assert forall|i: int|
        0 <= i < keys.len() && keys[i] == key && (forall|j: int| 0 <= j < i ==> keys[j] != key) implies release_keys(keys, key)
            == keys.update(i, 0) by {
        let k = first_index(keys, key).unwrap();
        assert(keys[k] == key);
        assert(k == i);
    }
    if !keys.contains(key) {
        if first_index(keys, key) is Some {
            let k = first_index(keys, key).unwrap();
            assert(keys[k] == key);
        }
    }
}

/// The 8-byte input report is the modifier byte, a zero byte, then the six slots in order.
pub proof fn lemma_report_layout(modifiers: u8, keys: Seq<u8>)
    requires
        keys.len() == 6,
    ensures
        report_bytes(modifiers, keys).len() == 8,
        report_bytes(modifiers, keys)[0] == modifiers,
        report_bytes(modifiers, keys)[1] == 0,
        forall|j: int| 0 <= j < 6 ==> report_bytes(modifiers, keys)[j + 2] == keys[j],
{
}

/// A host not heard from yet reads a fresh keyboard: boot protocol (0), an all-zero
/// 8-byte input report and an LED byte of 0; a host's first subscription records it
/// in that state.
pub proof fn lemma_unknown_host_reads_fresh(entries: Seq<(Address, KeyboardState)>, address: Address)
    requires
        !has_address(entries, address),
    ensures
        protocol_read(entries, address) == seq![0u8],
        input_report_read(entries, address) == seq![0u8, 0, 0, 0, 0, 0, 0, 0],
        leds_read(entries, address) == seq![0u8],
        keyboard_default().protocol == Protocol::Boot,
        keyboard_default().modifiers == 0 && keyboard_default().leds == 0,
        forall|j: int| 0 <= j < 6 ==> keyboard_default().keys@[j] == 0,
{
    assert(input_report_read(entries, address) =~= seq![0u8, 0, 0, 0, 0, 0, 0, 0]);
}

} // verus!
