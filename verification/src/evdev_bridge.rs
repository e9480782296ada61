use vstd::prelude::*;

use crate::address::{Address, Target};
use crate::keyboard::{KeyboardReturnEvent, KeyboardServerDied};
use crate::leds::Led;
use crate::mouse::{Button, MouseServerDied};

verus! {

/// Linux evdev key codes the bridges react to.
pub const KEY_ESC: u16 = 1;
pub const KEY_LEFTMETA: u16 = 125;
pub const BTN_LEFT: u16 = 0x110;
pub const BTN_RIGHT: u16 = 0x111;
pub const BTN_MIDDLE: u16 = 0x112;

/// Linux evdev relative axis codes the mouse bridge accumulates.
pub const REL_X: u16 = 0x00;
pub const REL_Y: u16 = 0x01;
pub const REL_WHEEL: u16 = 0x08;

#[verifier::external_type_specification]
#[verifier::external_body]
pub struct ExIoError(std::io::Error);

/// Why a listener of a server's return events got no event.
#[derive(Clone, Copy, Debug, PartialEq, Eq, Structural)]
pub enum ReturnError {
    ServerDied,
    Lagged(u64),
}

/// Why an evdev bridge stopped.
#[derive(Debug)]
pub enum EvdevBridgeError {
    EvdevError(std::io::Error),
    ServerDied,
    Desynced,
}

impl From<std::io::Error> for EvdevBridgeError {
    fn from(value: std::io::Error) -> (res: Self) {
        EvdevBridgeError::EvdevError(value)
    }
}

impl vstd::std_specs::convert::FromSpecImpl<std::io::Error> for EvdevBridgeError {
    open spec fn obeys_from_spec() -> bool {
        true
    }

    open spec fn from_spec(value: std::io::Error) -> Self {
        EvdevBridgeError::EvdevError(value)
    }
}

impl From<KeyboardServerDied> for EvdevBridgeError {
    fn from(value: KeyboardServerDied) -> (res: Self) {
        EvdevBridgeError::ServerDied
    }
}

impl vstd::std_specs::convert::FromSpecImpl<KeyboardServerDied> for EvdevBridgeError {
    open spec fn obeys_from_spec() -> bool {
        true
    }

    open spec fn from_spec(value: KeyboardServerDied) -> Self {
        EvdevBridgeError::ServerDied
    }
}

impl From<MouseServerDied> for EvdevBridgeError {
    fn from(value: MouseServerDied) -> (res: Self) {
        EvdevBridgeError::ServerDied
    }
}

impl vstd::std_specs::convert::FromSpecImpl<MouseServerDied> for EvdevBridgeError {
    open spec fn obeys_from_spec() -> bool {
        true
    }

    open spec fn from_spec(value: MouseServerDied) -> Self {
        EvdevBridgeError::ServerDied
    }
}

/// A listener that fell behind means the bridge no longer knows the LED state.
pub open spec fn bridge_error_of_return(value: ReturnError) -> EvdevBridgeError {
    match value {
        ReturnError::Lagged(_) => EvdevBridgeError::Desynced,
        ReturnError::ServerDied => EvdevBridgeError::ServerDied,
    }
}

impl From<ReturnError> for EvdevBridgeError {
    fn from(value: ReturnError) -> (res: Self) {
        match value {
            ReturnError::Lagged(_) => EvdevBridgeError::Desynced,
            ReturnError::ServerDied => EvdevBridgeError::ServerDied,
        }
    }
}

impl vstd::std_specs::convert::FromSpecImpl<ReturnError> for EvdevBridgeError {
    open spec fn obeys_from_spec() -> bool {
        true
    }

    open spec fn from_spec(value: ReturnError) -> Self {
        bridge_error_of_return(value)
    }
}

/// The USB HID usage id that the `keycode` crate's key table gives an evdev key code.
pub uninterp spec fn usb_usage_of_evdev(code: u16) -> Option<u16>;

/// Looks an evdev key code up in the `keycode` crate's table
/// (`keycode::KeyMap::from_key_mapping(KeyMapping::Evdev(code))`) and gives the USB HID
/// usage of the key, or `None` where the table has no row for the code. The result is
/// a function of the code (the table is fixed when the crate is built); the table maps
/// KEY_LEFTMETA (125) to usage 0xE3. Which row evdev code 0, shared by many unmapped
/// keys, resolves to is not stated.
#[verifier::external_body]
fn keymap_usb_of_evdev(code: u16) -> (res: Option<u16>)
    ensures
        res == usb_usage_of_evdev(code),
        code == KEY_LEFTMETA ==> res == Some(0xE3u16),
{
    match keycode::KeyMap::from_key_mapping(keycode::KeyMapping::Evdev(code)) {
        Ok(map) => Some(map.usb),
        Err(_) => None,
    }
}

/// What the keyboard bridge does for one key event of the grabbed keyboard.
#[derive(Clone, Copy, Debug)]
pub enum KeyAction {
    /// Nothing to forward.
    Ignore,
    /// Forward a key press (USB usage) to the target.
    Press(Target, u8),
    /// Forward a key release (USB usage) to the target.
    Release(Target, u8),
    /// The escape shortcut (Super + Esc) was pressed: release the Super key (USB
    /// usage) on the target and stop the bridge.
    Escape(Target, u8),
}

/// The decision state of a keyboard bridge: whether the left Super key is down,
/// where its events go, and which host's LED changes it mirrors.
#[derive(Clone, Copy, Debug)]
pub struct KeyboardBridgeState {
    pub super_down: bool,
    pub target: Target,
    pub mirrored: Option<Address>,
}

/// Whether Super is down after an event: a left Super press sets it, a release clears
/// it, repeats and other keys leave it.
pub open spec fn super_after(down: bool, code: u16, action: i32) -> bool {
    if code == KEY_LEFTMETA {
        if action == 0 {
            false
        } else if action == 1 {
            true
        } else {
            down
        }
    } else {
        down
    }
}

/// The action for a key event given the usage id the key maps to (if any) and the
/// usage id of left Super.
pub open spec fn key_action(down: bool, target: Target, code: u16, action: i32, usb: Option<u8>, meta_usb: u8) -> KeyAction {
    if code == KEY_ESC && action == 1 && super_after(down, code, action) {
        KeyAction::Escape(target, meta_usb)
    } else {
        match usb {
            None => KeyAction::Ignore,
            Some(u) => if action == 0 {
                KeyAction::Release(target, u)
            } else if action == 1 {
                KeyAction::Press(target, u)
            } else {
                KeyAction::Ignore
            },
        }
    }
}

/// Whether Super is down after a run of key events (code, action), in order.
pub open spec fn super_after_run(down: bool, events: Seq<(u16, i32)>) -> bool
    decreases events.len(),
{
    if events.len() == 0 {
        down
    } else {
        super_after(super_after_run(down, events.drop_last()), events.last().0, events.last().1)
    }
}

/// Holding Super keeps the escape shortcut armed: only a release of left Super (action
/// 0) clears it. Once left Super is pressed, any run of events without such a release
/// (repeats of the held Super key, other keys, repeats of anything) leaves it down, and
/// an Esc press then escapes, releasing Super (usage `meta`) on the target.
pub proof fn lemma_super_held_until_released(down: bool, events: Seq<(u16, i32)>, target: Target, usb: Option<u8>, meta: u8)
    requires
        forall|i: int| 0 <= i < events.len() ==> !((#[trigger] events[i]).0 == 125 && events[i].1 == 0),
    ensures
        super_after(down, 125, 1),
        !super_after(down, 125, 0),
        forall|code: u16, action: i32|
            action != 0 && action != 1 ==> #[trigger] super_after(down, code, action) == down,
        super_after_run(super_after(down, 125, 1), events),
        key_action(super_after_run(super_after(down, 125, 1), events), target, 1, 1, usb, meta) == KeyAction::Escape(
            target,
            meta,
        ),
    decreases events.len(),
{
    if events.len() > 0 {
        lemma_super_held_until_released(down, events.drop_last(), target, usb, meta);
        assert(!(events[events.len() - 1].0 == 125 && events[events.len() - 1].1 == 0));
    }
}

/// What a key event forwards, apart from the escape shortcut: a key the table maps to a
/// usage is released on action 0 and pressed on action 1, and a repeat (any other
/// action) forwards nothing; a key the table does not map forwards nothing.
pub proof fn lemma_key_actions(down: bool, target: Target, code: u16, action: i32, usb: Option<u8>, meta: u8)
    requires
        !(code == 1 && action == 1 && super_after(down, code, action)),
    ensures
        usb is None ==> key_action(down, target, code, action, usb, meta) == KeyAction::Ignore,
        usb is Some && action == 0 ==> key_action(down, target, code, action, usb, meta) == KeyAction::Release(
            target,
            usb.unwrap(),
        ),
        usb is Some && action == 1 ==> key_action(down, target, code, action, usb, meta) == KeyAction::Press(
            target,
            usb.unwrap(),
        ),
        action != 0 && action != 1 ==> key_action(down, target, code, action, usb, meta) == KeyAction::Ignore,
{
}

impl KeyboardBridgeState {
    /// A bridge forwarding to `target`; with a single target it mirrors that host's LEDs.
    pub fn new(target: Target) -> (res: KeyboardBridgeState)
        ensures
            res.super_down == false,
            res.target == target,
            res.mirrored == match target {
                Target::Target(a) => Some(a),
                Target::Broadcast => None,
            },
    {
        let mirrored = match target {
            Target::Target(a) => Some(a),
            Target::Broadcast => None,
        };
        KeyboardBridgeState { super_down: false, target, mirrored }
    }

    /// Decides what to do with a key event (`action` 0 = release, 1 = press, 2 = repeat),
    /// given the USB usage the key maps to, if any, and the usage of left Super.
    pub fn decide_key(&mut self, code: u16, action: i32, usb: Option<u8>, meta_usb: u8) -> (res: KeyAction)
        ensures
            final(self).target == old(self).target,
            final(self).mirrored == old(self).mirrored,
            final(self).super_down == super_after(old(self).super_down, code, action),
            res == key_action(old(self).super_down, old(self).target, code, action, usb, meta_usb),
            !(code == KEY_LEFTMETA && (action == 0 || action == 1)) ==> final(self).super_down == old(self).super_down,
            code == KEY_LEFTMETA && action == 1 ==> final(self).super_down,
            code == KEY_LEFTMETA && action == 0 ==> !final(self).super_down,
            old(self).super_down && code == KEY_ESC && action == 1 ==> res == KeyAction::Escape(old(self).target, meta_usb),
    {
        if code == KEY_LEFTMETA {
            if action == 0 {
                self.super_down = false;
            } else if action == 1 {
                self.super_down = true;
            }
        }
        if code == KEY_ESC && action == 1 && self.super_down {
            return KeyAction::Escape(self.target, meta_usb);
        }
        match usb {
            None => KeyAction::Ignore,
            Some(u) => {
                if action == 0 {
                    KeyAction::Release(self.target, u)
                } else if action == 1 {
                    KeyAction::Press(self.target, u)
                } else {
                    KeyAction::Ignore
                }
            },
        }
    }

    /// Handles a key event of the grabbed keyboard, mapping the evdev code to a USB
    /// usage with the `keycode` table (left Super, code 125, is usage 0xE3). Returns
    /// `None` only where a key that is not the escape shortcut maps to a usage that
    /// does not fit a byte (a key the boot keyboard report cannot carry); the state is
    /// then unchanged.
    pub fn on_key(&mut self, code: u16, action: i32) -> (res: Option<KeyAction>)
        ensures
            ({
                let down = old(self).super_down;
                let escape = code == KEY_ESC && action == 1 && super_after(down, code, action);
                let mapped = usb_usage_of_evdev(code);
                if (mapped matches Some(u) && u > 255 && !escape) {
                    res is None && *final(self) == *old(self)
                } else {
                    &&& final(self).target == old(self).target
                    &&& final(self).mirrored == old(self).mirrored
                    &&& final(self).super_down == super_after(down, code, action)
                    &&& res == Some(
                        key_action(
                            down,
                            old(self).target,
                            code,
                            action,
                            match mapped {
                                Some(u) => Some(u as u8),
                                None => None,
                            },
                            0xE3,
                        ),
                    )
                }
            }),
            code == KEY_LEFTMETA && action == 1 ==> res == Some(KeyAction::Press(old(self).target, 0xE3)),
            code == KEY_LEFTMETA && action == 0 ==> res == Some(KeyAction::Release(old(self).target, 0xE3)),
            !(code == KEY_LEFTMETA && (action == 0 || action == 1)) ==> final(self).super_down == old(self).super_down,
            code == KEY_LEFTMETA && action == 1 ==> final(self).super_down,
            code == KEY_LEFTMETA && action == 0 ==> !final(self).super_down,
            old(self).super_down && code == KEY_ESC && action == 1 ==> res == Some(KeyAction::Escape(old(self).target, 0xE3)),
    {
        let down = if code == KEY_LEFTMETA {
            if action == 0 {
                false
            } else if action == 1 {
                true
            } else {
                self.super_down
            }
        } else {
            self.super_down
        };
        let escape = code == KEY_ESC && action == 1 && down;
        let mapped = if escape {
            None
        } else {
            keymap_usb_of_evdev(code)
        };
        let usb: Option<u8> = match mapped {
            Some(u) => {
                if u > 255 {
                    return None;
                }
                Some(u as u8)
            },
            None => None,
        };
        let meta = if escape {
            match keymap_usb_of_evdev(KEY_LEFTMETA) {
                Some(m) => m as u8,
                None => 0xE3,
            }
        } else {
            0xE3
        };
        let ghost spec_usb = match usb_usage_of_evdev(code) {
            Some(u) => Some(u as u8),
            None => None,
        };
        let res = self.decide_key(code, action, usb, meta);
        assert(res == key_action(down, self.target, code, action, spec_usb, 0xE3) || escape);
        Some(res)
    }

    /// Handles an event of the keyboard server's return stream. While the bridge
    /// mirrors a host, errors stop the bridge and that host's LED changes are to be set
    /// on the grabbed keyboard (`Some((led, on))`); a bridge that mirrors no host ignores
    /// the stream.
    pub fn on_return_event(&mut self, event: Result<KeyboardReturnEvent, ReturnError>) -> (res: Result<
        Option<(Led, bool)>,
        EvdevBridgeError,
    >)
        ensures
            *final(self) == *old(self),
            match old(self).mirrored {
                None => res matches Ok(None),
                Some(t) => match event {
                    Err(e) => res matches Err(r) && r == bridge_error_of_return(e),
                    Ok(KeyboardReturnEvent::LedOn(from, led)) => if from == t {
                        res matches Ok(Some(c)) && c == (led, true)
                    } else {
                        res matches Ok(None)
                    },
                    Ok(KeyboardReturnEvent::LedOff(from, led)) => if from == t {
                        res matches Ok(Some(c)) && c == (led, false)
                    } else {
                        res matches Ok(None)
                    },
                    Ok(_) => res matches Ok(None),
                },
            },
    {
        match self.mirrored {
            None => Ok(None),
            Some(t) => match event {
                Err(e) => Err(EvdevBridgeError::from(e)),
                Ok(KeyboardReturnEvent::LedOn(from, led)) => {
                    if from.same(&t) {
                        Ok(Some((led, true)))
                    } else {
                        Ok(None)
                    }
                },
                Ok(KeyboardReturnEvent::LedOff(from, led)) => {
                    if from.same(&t) {
                        Ok(Some((led, false)))
                    } else {
                        Ok(None)
                    }
                },
                Ok(_) => Ok(None),
            },
        }
    }
}

/// The mouse button an evdev button code stands for: left, right and middle are
/// buttons 1, 2 and 3; other codes are not forwarded.
pub fn map_button_codes(code: u16) -> (res: Option<Button>)
    ensures
        code == BTN_LEFT ==> (res matches Some(b) && b.id == 1),
        code == BTN_RIGHT ==> (res matches Some(b) && b.id == 2),
        code == BTN_MIDDLE ==> (res matches Some(b) && b.id == 3),
        code != BTN_LEFT && code != BTN_RIGHT && code != BTN_MIDDLE ==> res is None,
{
    if code == BTN_LEFT {
        Some(Button { id: 1 })
    } else if code == BTN_RIGHT {
        Some(Button { id: 2 })
    } else if code == BTN_MIDDLE {
        Some(Button { id: 3 })
    } else {
        None
    }
}

/// What the mouse bridge forwards for a button event.
#[derive(Clone, Copy, Debug)]
pub enum ButtonAction {
    Press(Target, Button),
    Release(Target, Button),
}

/// The action for an evdev key event of the grabbed mouse (`action` 0 = release,
/// 1 = press): only the three mapped buttons are forwarded, repeats are not.
pub fn mouse_button_action(target: Target, code: u16, action: i32) -> (res: Option<ButtonAction>)
    ensures
        ({
            let b = if code == BTN_LEFT {
                1u16
            } else if code == BTN_RIGHT {
                2u16
            } else if code == BTN_MIDDLE {
                3u16
            } else {
                0u16
            };
            if b == 0 || (action != 0 && action != 1) {
                res is None
            } else if action == 0 {
                res matches Some(ButtonAction::Release(t, btn)) && btn.id == b && t == target
            } else {
                res matches Some(ButtonAction::Press(t, btn)) && btn.id == b && t == target
            }
        }),
{
    match map_button_codes(code) {
        Some(button) => {
            if action == 0 {
                Some(ButtonAction::Release(target, button))
            } else if action == 1 {
                Some(ButtonAction::Press(target, button))
            } else {
                None
            }
        },
        None => None,
    }
}

/// Clamps a value into the range of `i8`.
pub open spec fn clamp_i8(v: i32) -> i8 {
    if v < -128 {
        -128i8
    } else if v > 127 {
        127i8
    } else {
        v as i8
    }
}

/// Relative movement accumulated by the mouse bridge between two clock ticks.
#[derive(Clone, Copy, Debug)]
pub struct MouseMotion {
    pub x: i32,
    pub y: i32,
    pub scroll: i32,
}

/// Whether adding `amount` to `v` stays within `i32`.
pub open spec fn add_fits(v: i32, amount: i32) -> bool {
    i32::MIN <= v + amount <= i32::MAX
}

impl MouseMotion {
    /// Nothing accumulated.
    pub fn new() -> (res: MouseMotion)
        ensures
            res.x == 0 && res.y == 0 && res.scroll == 0,
    {
        MouseMotion { x: 0, y: 0, scroll: 0 }
    }

    /// Whether a relative event on `axis` with `amount` can be accumulated without
    /// leaving `i32`.
    pub fn can_accumulate(&self, axis: u16, amount: i32) -> (res: bool)
        ensures
            res == if axis == REL_X {
                add_fits(self.x, amount)
            } else if axis == REL_Y {
                add_fits(self.y, amount)
            } else if axis == REL_WHEEL {
                add_fits(self.scroll, amount)
            } else {
                true
            },
    {
        let v: i32 = if axis == REL_X {
            self.x
        } else if axis == REL_Y {
            self.y
        } else if axis == REL_WHEEL {
            self.scroll
        } else {
            return true;
        };
        if amount >= 0 {
            v <= i32::MAX - amount
        } else {
            v >= i32::MIN - amount
        }
    }

    /// Accumulates a relative event: X and Y movement and wheel turns add up; other
    /// axes are ignored.
    pub fn accumulate(&mut self, axis: u16, amount: i32)
        requires
            axis == REL_X ==> add_fits(old(self).x, amount),
            axis == REL_Y ==> add_fits(old(self).y, amount),
            axis == REL_WHEEL ==> add_fits(old(self).scroll, amount),
        ensures
            final(self).x == if axis == REL_X {
                old(self).x + amount
            } else {
                old(self).x as int
            },
            final(self).y == if axis == REL_Y {
                old(self).y + amount
            } else {
                old(self).y as int
            },
            final(self).scroll == if axis == REL_WHEEL {
                old(self).scroll + amount
            } else {
                old(self).scroll as int
            },
    {
        if axis == REL_X {
            self.x = self.x + amount;
        } else if axis == REL_Y {
            self.y = self.y + amount;
        } else if axis == REL_WHEEL {
            self.scroll = self.scroll + amount;
        }
    }

    /// A clock tick: the movement to send is each axis clamped to `i8`; what did not
    /// fit stays accumulated for the next tick, while wheel turns beyond it are dropped.
    pub fn tick(&mut self) -> (res: (i8, i8, i8))
        ensures
            res == (clamp_i8(old(self).x), clamp_i8(old(self).y), clamp_i8(old(self).scroll)),
            final(self).x == old(self).x - res.0,
            final(self).y == old(self).y - res.1,
            final(self).scroll == 0,
    {
        let mx = clamp_to_i8(self.x);
        let my = clamp_to_i8(self.y);
        let ms = clamp_to_i8(self.scroll);
        self.x = self.x - mx as i32;
        self.y = self.y - my as i32;
        self.scroll = 0;
        (mx, my, ms)
    }
}

/// Clamps a value into the range of `i8`.
pub fn clamp_to_i8(v: i32) -> (res: i8)
    ensures
        res == clamp_i8(v),
{
    if v < -128 {
        -128
    } else if v > 127 {
        127
    } else {
        v as i8
    }
}

/// A rate limiter: each tick waits until `duration` has passed since the last one.
/// Times are nanoseconds of a monotonic clock.
#[derive(Clone, Copy, Debug)]
pub struct Clock {
    pub duration: u64,
    pub last: u64,
}

impl Clock {
    /// A clock whose last tick is `now`.
    pub fn new(duration: u64, now: u64) -> (res: Clock)
        ensures
            res.duration == duration,
            res.last == now,
    {
        Clock { duration, last: now }
    }

    /// How long to wait at `instant` before the next tick: the duration minus the time
    /// since the last tick, or nothing once that much time has passed.
    pub fn remaining(&self, instant: u64) -> (res: u64)
        ensures
            res == if instant <= self.last {
                self.duration as int
            } else if instant - self.last >= self.duration {
                0
            } else {
                self.duration - (instant - self.last)
            },
    {
        let elapsed = if instant > self.last {
            instant - self.last
        } else {
            0
        };
        if elapsed >= self.duration {
            0
        } else {
            self.duration - elapsed
        }
    }

    /// Records a tick at `now`.
    pub fn tick(&mut self, now: u64)
        ensures
            final(self).duration == old(self).duration,
            final(self).last == now,
    {
        self.last = now;
    }
}

/// No movement is lost at a clock tick: the movement sent plus what stays accumulated
/// is what was accumulated; movement that fits a report is sent whole, and what stays
/// is always smaller than what was there.
pub proof fn lemma_tick_keeps_movement(v: i32)
    ensures
        clamp_i8(v) + (v - clamp_i8(v)) == v,
        -128 <= v <= 127 ==> v - clamp_i8(v) == 0,
        v > 127 ==> 0 < v - clamp_i8(v) < v,
        v < -128 ==> v < v - clamp_i8(v) < 0,
{
}

} // verus!
