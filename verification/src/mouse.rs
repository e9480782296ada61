use vstd::prelude::*;

use crate::address::{targets, Address, Target};
use crate::devices::{distinct_addresses, has_address, lemma_lookup_at, lookup, DeviceMap, DeviceState};
use crate::hid::{protocol_byte, protocol_of_write, ControlPointCommand, ControlPointRefused, Protocol};

verus! {

/// Error for a button id that is not a valid mouse button (button ids start at 1).
#[derive(Clone, Copy, Debug)]
pub struct InvalidButton;

/// A mouse button, identified by a non-zero id (1 = left, 2 = right, 3 = middle).
#[derive(Clone, Copy, Debug)]
pub struct Button {
    pub id: u16,
}

impl Button {
    /// Builds a button from its id; id 0 is not a button.
    pub fn from_id(id: u16) -> (res: Result<Button, InvalidButton>)
        ensures
            id == 0 <==> res is Err,
            res matches Ok(b) ==> b.id == id,
    {
        match id {
            0 => Err(InvalidButton),
            _ => Ok(Button { id }),
        }
    }

    /// The id of the button.
    pub fn into_u16(&self) -> (res: u16)
        ensures
            res == self.id,
    {
        self.id
    }
}

/// The mouse server stopped.
#[derive(Clone, Copy, Debug)]
pub struct MouseServerDied;

/// Why an event could not be queued for the mouse server without waiting.
#[derive(Clone, Copy, Debug, PartialEq, Eq, Structural)]
pub enum TryMouseError {
    MouseServerDied,
    QueueFull,
}

/// Why a listener of the mouse server's events got no event.
#[derive(Clone, Copy, Debug, PartialEq, Eq, Structural)]
pub enum MouseReturnError {
    ServerDied,
    Lagged(u64),
}

/// An input event for the mouse server.
#[derive(Clone, Copy, Debug)]
pub enum MouseEvent {
    ButtonPress(Target, Button),
    ButtonRelease(Target, Button),
    Movement(Target, i8, i8, i8),
}

/// What the mouse server reports back to its users.
#[derive(Clone, Copy, Debug)]
pub enum MouseReturnEvent {
    Register(Address),
    Wake(Address),
    Suspend(Address),
}

/// The bit of a button (1..=3) in the report's button byte: button 1 is bit 0.
pub open spec fn button_mask(id: u16) -> u8 {
    1u8 << ((id - 1) as u8)
}

/// Whether a button id is one the report can carry (1 = left, 2 = right, 3 = middle).
pub open spec fn reportable_button(id: u16) -> bool {
    1 <= id <= 3
}

/// State of one emulated mouse as seen by one host.
#[derive(Clone, Copy, Debug)]
pub struct MouseState {
    pub protocol: Protocol,
    pub buttons: u8,
}

/// A mouse with no button down, in boot protocol.
pub open spec fn mouse_default() -> MouseState {
    MouseState { protocol: Protocol::Boot, buttons: 0 }
}

impl DeviceState for MouseState {
    open spec fn fresh_spec() -> Self {
        mouse_default()
    }

    fn fresh() -> (s: Self) {
        MouseState { protocol: Protocol::Boot, buttons: 0 }
    }
}

/// The bytes of a mouse input report: boot protocol carries the buttons and the two
/// axes; report protocol adds the wheel. Signed movements keep their bit pattern.
pub open spec fn mouse_report_bytes(protocol: Protocol, buttons: u8, x: i8, y: i8, wheel: i8) -> Seq<u8> {
    match protocol {
        Protocol::Boot => seq![buttons, x as u8, y as u8],
        Protocol::Report => seq![buttons, x as u8, y as u8, wheel as u8],
    }
}

/// Whether a press of button `id` changes the button byte (and so is reported).
pub open spec fn press_changes(buttons: u8, id: u16) -> bool {
    reportable_button(id) && buttons & button_mask(id) == 0
}

/// Whether a release of button `id` changes the button byte (and so is reported).
pub open spec fn release_changes(buttons: u8, id: u16) -> bool {
    reportable_button(id) && buttons & button_mask(id) != 0
}

impl MouseState {
    /// A mouse with no button down, in boot protocol.
    pub fn new() -> (res: MouseState)
        ensures
            res == mouse_default(),
    {
        MouseState::fresh()
    }

    /// Presses a button; only buttons 1..=3 that are up change the state.
    /// Returns whether the change must be reported.
    pub fn press(&mut self, button: Button) -> (sent: bool)
        ensures
            final(self).protocol == old(self).protocol,
            sent == press_changes(old(self).buttons, button.id),
            final(self).buttons == if sent {
                old(self).buttons | button_mask(button.id)
            } else {
                old(self).buttons
            },
    {
        let id = button.into_u16();
        if 1 <= id && id <= 3 && self.buttons & (1u8 << ((id - 1) as u8)) == 0 {
            self.buttons = self.buttons | (1u8 << ((id - 1) as u8));
            true
        } else {
            false
        }
    }

    /// Releases a button; only buttons 1..=3 that are down change the state.
    /// Returns whether the change must be reported.
    pub fn release(&mut self, button: Button) -> (sent: bool)
        ensures
            final(self).protocol == old(self).protocol,
            sent == release_changes(old(self).buttons, button.id),
            final(self).buttons == if sent {
                old(self).buttons & !button_mask(button.id)
            } else {
                old(self).buttons
            },
    {
        let id = button.into_u16();
        if 1 <= id && id <= 3 && self.buttons & (1u8 << ((id - 1) as u8)) != 0 {
            self.buttons = self.buttons & !(1u8 << ((id - 1) as u8));
            true
        } else {
            false
        }
    }

    /// The input report for this mouse, with an optional movement and wheel turn
    /// (absent ones are sent as 0).
    pub fn report(&self, movement: Option<(i8, i8)>, wheel: Option<i8>) -> (res: Vec<u8>)
        ensures
            res@ == mouse_report_bytes(
                self.protocol,
                self.buttons,
                match movement {
                    Some(m) => m.0,
                    None => 0,
                },
                match movement {
                    Some(m) => m.1,
                    None => 0,
                },
                match wheel {
                    Some(w) => w,
                    None => 0,
                },
            ),
    {
        let (mx, my) = match movement {
            Some(m) => m,
            None => (0i8, 0i8),
        };
        let w: i8 = match wheel {
            Some(w) => w,
            None => 0,
        };
        let mut res: Vec<u8> = Vec::new();
        res.push(self.buttons);
        res.push(mx as u8);
        res.push(my as u8);
        match self.protocol {
            Protocol::Boot => {},
            Protocol::Report => {
                res.push(w as u8);
            },
        }
        res
    }
}

/// The report a mouse event makes one mouse send, if any: its protocol and bytes.
pub open spec fn mouse_event_report(s: MouseState, event: MouseEvent) -> Option<(Protocol, Seq<u8>)> {
    match event {
        MouseEvent::ButtonPress(_, b) => if press_changes(s.buttons, b.id) {
            Some((s.protocol, mouse_report_bytes(s.protocol, s.buttons | button_mask(b.id), 0, 0, 0)))
        } else {
            None
        },
        MouseEvent::ButtonRelease(_, b) => if release_changes(s.buttons, b.id) {
            Some((s.protocol, mouse_report_bytes(s.protocol, s.buttons & !button_mask(b.id), 0, 0, 0)))
        } else {
            None
        },
        MouseEvent::Movement(_, x, y, w) => Some((s.protocol, mouse_report_bytes(s.protocol, s.buttons, x, y, w))),
    }
}

/// The state of one mouse after an event.
pub open spec fn mouse_event_state(s: MouseState, event: MouseEvent) -> MouseState {
    match event {
        MouseEvent::ButtonPress(_, b) => if press_changes(s.buttons, b.id) {
            MouseState { buttons: s.buttons | button_mask(b.id), ..s }
        } else {
            s
        },
        MouseEvent::ButtonRelease(_, b) => if release_changes(s.buttons, b.id) {
            MouseState { buttons: s.buttons & !button_mask(b.id), ..s }
        } else {
            s
        },
        MouseEvent::Movement(..) => s,
    }
}

/// The target of a mouse event.
pub open spec fn mouse_event_target(event: MouseEvent) -> Target {
    match event {
        MouseEvent::ButtonPress(t, _) => t,
        MouseEvent::ButtonRelease(t, _) => t,
        MouseEvent::Movement(t, ..) => t,
    }
}

/// The reports a mouse event makes the first `n` known mice send, in order.
pub open spec fn mouse_event_reports(entries: Seq<(Address, MouseState)>, event: MouseEvent, n: nat) -> Seq<
    (Address, Protocol, Seq<u8>),
>
    decreases n,
{
    if n == 0 {
        Seq::empty()
    } else {
        let prev = mouse_event_reports(entries, event, (n - 1) as nat);
        let e = entries[n - 1];
        if targets(mouse_event_target(event), e.0) {
            match mouse_event_report(e.1, event) {
                Some((p, bytes)) => prev.push((e.0, p, bytes)),
                None => prev,
            }
        } else {
            prev
        }
    }
}

/// What a host reads from the mouse's Protocol Mode characteristic: its protocol,
/// boot protocol for a host not heard from yet.
pub open spec fn mouse_protocol_read(entries: Seq<(Address, MouseState)>, address: Address) -> Seq<u8> {
    seq![protocol_byte(
        match lookup(entries, address) {
            Some(s) => s.protocol,
            None => Protocol::Boot,
        },
    )]
}

/// What a host reads from a mouse input report characteristic: the buttons, with no
/// movement; no button for a host not heard from yet.
pub open spec fn mouse_report_read(entries: Seq<(Address, MouseState)>, address: Address) -> Seq<u8> {
    seq![
        match lookup(entries, address) {
            Some(s) => s.buttons,
            None => 0u8,
        },
        0u8,
        0u8,
    ]
}

/// A mouse input report to send to one host through the characteristic of `protocol`.
pub struct MouseReport {
    pub address: Address,
    pub protocol: Protocol,
    pub report: Vec<u8>,
}

impl View for MouseReport {
    type V = (Address, Protocol, Seq<u8>);

    open spec fn view(&self) -> (Address, Protocol, Seq<u8>) {
        (self.address, self.protocol, self.report@)
    }
}

/// The state of the mouse server: one emulated mouse per host that has used it.
pub struct MouseServer {
    devices: DeviceMap<MouseState>,
}

impl MouseServer {
    /// The hosts known to the server, with their mouse state.
    pub closed spec fn entries(&self) -> Seq<(Address, MouseState)> {
        self.devices.entries()
    }

    /// No host is recorded twice (always so: the device map keeps it).
    pub open spec fn wf(&self) -> bool {
        distinct_addresses(self.entries())
    }

    /// A server that knows no host.
    pub fn new() -> (res: MouseServer)
        ensures
            res.wf(),
            res.entries() == Seq::<(Address, MouseState)>::empty(),
    {
        MouseServer { devices: DeviceMap::new() }
    }

    /// Applies a button or movement event to every mouse it targets and returns the
    /// reports to send, in the order of the known hosts.
    pub fn mouse_event(&mut self, event: MouseEvent) -> (reports: Vec<MouseReport>)
        ensures
            final(self).wf(),
            final(self).entries().len() == old(self).entries().len(),
            forall|i: int|
                0 <= i < old(self).entries().len() ==> {
                    let o = #[trigger] old(self).entries()[i];
                    let n = final(self).entries()[i];
                    &&& n.0 == o.0
                    &&& n.1 == if targets(mouse_event_target(event), o.0) {
                        mouse_event_state(o.1, event)
                    } else {
                        o.1
                    }
                },
            reports@.map_values(|r: MouseReport| r@) == mouse_event_reports(
                old(self).entries(),
                event,
                old(self).entries().len(),
            ),
            forall|k: int| 0 <= k < reports@.len() ==> report_for_host(#[trigger] reports@[k]@, old(self).entries(), event),
    {
        proof {
            use_type_invariant(&self.devices);
        }
        let target = match event {
            MouseEvent::ButtonPress(t, _) => t,
            MouseEvent::ButtonRelease(t, _) => t,
            MouseEvent::Movement(t, _, _, _) => t,
        };
        let ghost start = self.entries();
        let mut reports: Vec<MouseReport> = Vec::new();
        let mut i: usize = 0;
        let len = self.devices.len();
        while i < len
            invariant
                len == start.len(),
                i <= len,
                target == mouse_event_target(event),
                self.devices.wf(),
                self.devices.entries().len() == len,
                forall|j: int| i <= j < len ==> self.devices.entries()[j] == start[j],
                forall|j: int|
                    0 <= j < i ==> {
                        let o = #[trigger] start[j];
                        let n = self.devices.entries()[j];
                        &&& n.0 == o.0
                        &&& n.1 == if targets(target, o.0) {
                            mouse_event_state(o.1, event)
                        } else {
                            o.1
                        }
                    },
                reports@.map_values(|r: MouseReport| r@) == mouse_event_reports(start, event, i as nat),
            decreases len - i,
        {
            let (address, state) = self.devices.entry(i);
            if target.includes(address) {
                let mut s = state;
                match event {
                    MouseEvent::ButtonPress(_, b) => {
                        if s.press(b) {
                            self.devices.set_state(i, s);
                            let report = s.report(None, None);
                            reports.push(MouseReport { address, protocol: s.protocol, report });
                        }
                    },
                    MouseEvent::ButtonRelease(_, b) => {
                        if s.release(b) {
                            self.devices.set_state(i, s);
                            let report = s.report(None, None);
                            reports.push(MouseReport { address, protocol: s.protocol, report });
                        }
                    },
                    MouseEvent::Movement(_, x, y, w) => {
                        let report = s.report(Some((x, y)), Some(w));
                        reports.push(MouseReport { address, protocol: s.protocol, report });
                    },
                }
            }
            assert(reports@.map_values(|r: MouseReport| r@) =~= mouse_event_reports(start, event, (i + 1) as nat));
            i = i + 1;
        }
        proof {
            lemma_mouse_reports_follow_protocol(start, event, start.len());
            assert forall|k: int| 0 <= k < reports@.len() implies report_for_host(#[trigger] reports@[k]@, start, event) by {
                assert(reports@.map_values(|r: MouseReport| r@)[k] == reports@[k]@);
            }
        }
        reports
    }

    /// A host subscribed to input reports: the host is recorded. Returns the
    /// registration to announce when the host is new.
    pub fn notify(&mut self, address: Address) -> (res: Option<MouseReturnEvent>)
        ensures
            final(self).wf(),
            has_address(final(self).entries(), address),
            res is Some <==> !has_address(old(self).entries(), address),
            res matches Some(e) ==> e == MouseReturnEvent::Register(address),
            res is None ==> final(self).entries() == old(self).entries(),
            res is Some ==> final(self).entries() == old(self).entries().push((address, mouse_default())),
    {
        let (_, new) = self.devices.acquire_device(address);
        if new {
            Some(MouseReturnEvent::Register(address))
        } else {
            None
        }
    }

    /// A host went away: its mouse state is dropped.
    pub fn disconnect(&mut self, address: Address) -> (res: bool)
        ensures
            final(self).wf(),
            res == has_address(old(self).entries(), address),
            !has_address(final(self).entries(), address),
            !res ==> final(self).entries() == old(self).entries(),
            forall|a: Address| a != address ==> lookup(#[trigger] final(self).entries(), a) == lookup(old(self).entries(), a),
    {
        self.devices.disconnect_device(address)
    }

    /// The mouse state of a host, if known.
    pub fn device(&self, address: Address) -> (res: Option<MouseState>)
        ensures
            res == lookup(self.entries(), address),
    {
        self.devices.get_device(address)
    }

    /// The mouse state of a host; a host not heard from yet reads as a fresh mouse.
    fn state_or_default(&self, address: Address) -> (res: MouseState)
        ensures
            res == (match lookup(self.entries(), address) {
                Some(s) => s,
                None => mouse_default(),
            }),
    {
        match self.devices.get_device(address) {
            Some(s) => s,
            None => MouseState::new(),
        }
    }

    /// A read of the Protocol Mode characteristic by a host.
    pub fn read_protocol(&self, address: Address) -> (res: Vec<u8>)
        ensures
            res@ == mouse_protocol_read(self.entries(), address),
    {
        let s = self.state_or_default(address);
        let mut res = Vec::new();
        res.push(s.protocol.into_u8());
        res
    }

    /// A read of an input report characteristic (boot or report protocol): the
    /// buttons, with no movement.
    pub fn read_input_report(&self, address: Address) -> (res: Vec<u8>)
        ensures
            res@ == mouse_report_read(self.entries(), address),
    {
        let s = self.state_or_default(address);
        let mut res = Vec::new();
        res.push(s.buttons);
        res.push(0);
        res.push(0);
        res
    }

    /// A write to the Protocol Mode characteristic by a host: a valid protocol byte
    /// records the host (if new) and switches its protocol; anything else is ignored.
    pub fn write_protocol(&mut self, address: Address, value: &[u8]) -> (res: Option<MouseReturnEvent>)
        ensures
            final(self).wf(),
            forall|a: Address| a != address ==> lookup(#[trigger] final(self).entries(), a) == lookup(old(self).entries(), a),
            match protocol_of_write(value@) {
                None => res is None && final(self).entries() == old(self).entries(),
                Some(p) => {
                    &&& (res is Some <==> !has_address(old(self).entries(), address))
                    &&& (res matches Some(e) ==> e == MouseReturnEvent::Register(address))
                    &&& lookup(final(self).entries(), address) == Some(
                        MouseState {
                            protocol: p,
                            ..match lookup(old(self).entries(), address) {
                                Some(s) => s,
                                None => mouse_default(),
                            }
                        },
                    )
                },
            },
    {
        proof {
            use_type_invariant(&self.devices);
        }
        match Protocol::from_write(value) {
            None => None,
            Some(p) => {
                let (i, new) = self.acquire(address);
                let mut s = self.devices.entry(i).1;
                s.protocol = p;
                self.devices.set_state(i, s);
                proof { self.lemma_lookup_at(i as int); }
                if new {
                    Some(MouseReturnEvent::Register(address))
                } else {
                    None
                }
            },
        }
    }

    /// A write to the HID Control Point by a host: 1 (going to sleep) suspends, 0 wakes,
    /// anything else is refused.
    pub fn control_point(&self, address: Address, value: &[u8]) -> (res: Result<MouseReturnEvent, ControlPointRefused>)
        requires
            value@.len() >= 1,
        ensures
            value@[0] == 1 ==> res == Ok::<MouseReturnEvent, ControlPointRefused>(MouseReturnEvent::Suspend(address)),
            value@[0] == 0 ==> res == Ok::<MouseReturnEvent, ControlPointRefused>(MouseReturnEvent::Wake(address)),
            value@[0] > 1 ==> res is Err,
    {
        match crate::hid::decode_control_point(value) {
            Ok(ControlPointCommand::Suspend) => Ok(MouseReturnEvent::Suspend(address)),
            Ok(ControlPointCommand::Wake) => Ok(MouseReturnEvent::Wake(address)),
            Err(e) => Err(e),
        }
    }

    /// Finds the host's entry, recording it when new; the returned flag says it was new.
    fn acquire(&mut self, address: Address) -> (res: (usize, bool))
        ensures
            final(self).wf(),
            forall|a: Address| a != address ==> lookup(#[trigger] final(self).entries(), a) == lookup(old(self).entries(), a),
            res.0 < final(self).entries().len(),
            final(self).entries()[res.0 as int] == (address, match lookup(old(self).entries(), address) {
                Some(s) => s,
                None => mouse_default(),
            }),
            res.1 == !has_address(old(self).entries(), address),
            !res.1 ==> final(self).entries() == old(self).entries(),
            res.1 ==> final(self).entries() == old(self).entries().push((address, mouse_default())),
    {
        let r = self.devices.acquire_device(address);
        proof {
            if !r.1 {
                self.lemma_lookup_at(r.0 as int);
            }
        }
        r
    }

    /// In a well-formed server, the entry at position `i` is what `lookup` finds for its address.
    proof fn lemma_lookup_at(&self, i: int)
        requires
            self.wf(),
            0 <= i < self.entries().len(),
        ensures
            lookup(self.entries(), self.entries()[i].0) == Some(self.entries()[i].1),
    {
        let e = self.entries();
        let a = e[i].0;
        assert(has_address(e, a));
        let k = choose|k: int| 0 <= k < e.len() && e[k].0 == a;
        assert(k == i);
    }
}

/// Releasing a button undoes pressing it: for a reportable button that is up, a press
/// then a release both report and give back the button byte.
pub proof fn lemma_button_release_undoes_press(buttons: u8, id: u16)
    requires
        reportable_button(id),
        buttons & button_mask(id) == 0,
    ensures
        press_changes(buttons, id),
        release_changes(buttons | button_mask(id), id),
        (buttons | button_mask(id)) & !button_mask(id) == buttons,
{
    let s = (id - 1) as u8;
    assert(s < 3);
    assert((buttons & (1u8 << s)) == 0 ==> ((buttons | (1u8 << s)) & (1u8 << s)) != 0 && ((buttons | (1u8 << s)) & !(1u8 << s)) == buttons) by (bit_vector)
        requires
            s < 3,
    ;
}

/// The button byte only ever uses the bits of buttons 1..=3: a byte below 8 stays below 8.
pub proof fn lemma_buttons_stay_in_range(buttons: u8, id: u16)
    requires
        buttons < 8,
    ensures
        press_changes(buttons, id) ==> buttons | button_mask(id) < 8,
        release_changes(buttons, id) ==> buttons & !button_mask(id) < 8,
{
    if reportable_button(id) {
        let s = (id - 1) as u8;
        assert(s < 3);
        assert(buttons < 8 && s < 3 ==> (buttons | (1u8 << s)) < 8 && (buttons & !(1u8 << s)) < 8) by (bit_vector);
    }
}

/// A host reads back what it wrote: once a write has recorded a mouse state for a host
/// (the protocol it chose), the host's reads of the protocol and of the input report
/// answer from that state.
pub proof fn lemma_mouse_reads_back(entries: Seq<(Address, MouseState)>, address: Address, s: MouseState)
    requires
        lookup(entries, address) == Some(s),
    ensures
        mouse_protocol_read(entries, address) == seq![protocol_byte(s.protocol)],
        mouse_report_read(entries, address) == seq![s.buttons, 0u8, 0u8],
{
}

/// The button byte after one button event (`true` = press): only buttons 1..=3
/// change it, and only when the press or release changes something.
pub open spec fn buttons_after_event(buttons: u8, press: bool, id: u16) -> u8 {
    if press {
        if press_changes(buttons, id) {
            buttons | button_mask(id)
        } else {
            buttons
        }
    } else {
        if release_changes(buttons, id) {
            buttons & !button_mask(id)
        } else {
            buttons
        }
    }
}

/// The button byte after a run of button events, in order.
pub open spec fn buttons_after(buttons: u8, events: Seq<(bool, u16)>) -> u8
    decreases events.len(),
{
    if events.len() == 0 {
        buttons
    } else {
        let prev = buttons_after(buttons, events.drop_last());
        buttons_after_event(prev, events.last().0, events.last().1)
    }
}

/// Whatever button events a mouse gets, with any button id (0 included), starting with
/// no button down, its button byte stays below 8: only the bits of buttons 1..=3 are
/// ever set.
pub proof fn lemma_buttons_below_eight_from_start(events: Seq<(bool, u16)>)
    ensures
        buttons_after(mouse_default().buttons, events) < 8,
    decreases events.len(),
{
    if events.len() > 0 {
        lemma_buttons_below_eight_from_start(events.drop_last());
        let prev = buttons_after(mouse_default().buttons, events.drop_last());
        lemma_buttons_stay_in_range(prev, events.last().1);
    }
}

/// Whether report `r` is one for a host the event targets: the server knows the host,
/// the report goes on that host's protocol, with that protocol's size (three bytes in
/// boot protocol, four with the wheel in report protocol), and its first byte is the
/// host's button byte after the event.
pub open spec fn report_for_host(r: (Address, Protocol, Seq<u8>), entries: Seq<(Address, MouseState)>, event: MouseEvent) -> bool {
    match lookup(entries, r.0) {
        Some(s) => {
            &&& targets(mouse_event_target(event), r.0)
            &&& r.1 == s.protocol
            &&& r.2.len() == (if s.protocol == Protocol::Boot {
                3int
            } else {
                4int
            })
            &&& r.2[0] == mouse_event_state(s, event).buttons
        },
        None => false,
    }
}

/// Every report a mouse event makes goes to a targeted host on the characteristic of
/// that host's protocol, sized for that protocol, carrying the host's new button byte;
/// this holds for button events as for movement.
pub proof fn lemma_mouse_reports_follow_protocol(entries: Seq<(Address, MouseState)>, event: MouseEvent, n: nat)
    requires
        distinct_addresses(entries),
        n <= entries.len(),
    ensures
        forall|k: int|
            0 <= k < mouse_event_reports(entries, event, n).len() ==> report_for_host(
                #[trigger] mouse_event_reports(entries, event, n)[k],
                entries,
                event,
            ),
    decreases n,
{
    if n > 0 {
        lemma_mouse_reports_follow_protocol(entries, event, (n - 1) as nat);
        let prev = mouse_event_reports(entries, event, (n - 1) as nat);
        let cur = mouse_event_reports(entries, event, n);
        lemma_lookup_at(entries, n - 1);
        assert forall|k: int| 0 <= k < cur.len() implies report_for_host(#[trigger] cur[k], entries, event) by {
            if k < prev.len() {
                assert(cur[k] == prev[k]);
            }
        }
    }
}

/// Buttons 1, 2 and 3 are bits 0, 1 and 2 of the button byte: a press of a button that
/// is up sets its bit and is reported, a release of a button that is down clears it and
/// is reported; any other press or release (a button already in that state, or an id
/// outside 1..=3) leaves the byte and sends nothing.
pub proof fn lemma_buttons_are_bits(buttons: u8, id: u16)
    ensures
        1 <= id <= 3 && buttons & (1u8 << ((id - 1) as u8)) == 0 ==> buttons_after_event(buttons, true, id) == (buttons
            | (1u8 << ((id - 1) as u8))) && press_changes(buttons, id),
        1 <= id <= 3 && buttons & (1u8 << ((id - 1) as u8)) != 0 ==> buttons_after_event(buttons, false, id) == (buttons
            & !(1u8 << ((id - 1) as u8))) && release_changes(buttons, id),
        !(1 <= id <= 3) ==> buttons_after_event(buttons, true, id) == buttons && buttons_after_event(buttons, false, id)
            == buttons && !press_changes(buttons, id) && !release_changes(buttons, id),
        1 <= id <= 3 && buttons & (1u8 << ((id - 1) as u8)) != 0 ==> !press_changes(buttons, id),
        1 <= id <= 3 && buttons & (1u8 << ((id - 1) as u8)) == 0 ==> !release_changes(buttons, id),
{
}

/// A mouse report is the button byte, X and Y as signed bytes, and in report protocol
/// the wheel as a fourth signed byte.
pub proof fn lemma_mouse_report_layout(protocol: Protocol, buttons: u8, x: i8, y: i8, wheel: i8)
    ensures
        mouse_report_bytes(protocol, buttons, x, y, wheel).len() == if protocol == Protocol::Boot {
            3int
        } else {
            4int
        },
        mouse_report_bytes(protocol, buttons, x, y, wheel)[0] == buttons,
        mouse_report_bytes(protocol, buttons, x, y, wheel)[1] == x as u8,
        mouse_report_bytes(protocol, buttons, x, y, wheel)[2] == y as u8,
        protocol == Protocol::Report ==> mouse_report_bytes(protocol, buttons, x, y, wheel)[3] == wheel as u8,
{
}

/// A host not heard from yet reads a fresh mouse: boot protocol (0) and a report with
/// no button down and no movement; a host's first subscription records it in that state.
pub proof fn lemma_unknown_mouse_host_reads_fresh(entries: Seq<(Address, MouseState)>, address: Address)
    requires
        !has_address(entries, address),
    ensures
        mouse_protocol_read(entries, address) == seq![0u8],
        mouse_report_read(entries, address) == seq![0u8, 0, 0],
        mouse_default().protocol == Protocol::Boot,
        mouse_default().buttons == 0,
{
}

} // verus!
