use vstd::prelude::*;

use crate::address::Address;
use crate::devices::{
    distinct_addresses, has_address, lemma_lookup_at, lemma_lookup_push, lemma_lookup_update, lookup, DeviceMap, DeviceState,
};

verus! {

/// What the daemon publishes about a Bluetooth host: whether it is suspended, and
/// whether it uses the emulated keyboard and mouse.
#[derive(Clone, Copy, Debug)]
pub struct TrackedDevice {
    pub suspended: bool,
    pub has_keyboard: bool,
    pub has_mouse: bool,
}

/// A host the daemon has just heard of: active, using neither input yet.
pub open spec fn untracked() -> TrackedDevice {
    TrackedDevice { suspended: false, has_keyboard: false, has_mouse: false }
}

impl DeviceState for TrackedDevice {
    open spec fn fresh_spec() -> Self {
        untracked()
    }

    fn fresh() -> (s: Self) {
        TrackedDevice { suspended: false, has_keyboard: false, has_mouse: false }
    }
}

/// Which emulated input a host registered with.
#[derive(Clone, Copy, Debug, PartialEq, Eq, Structural)]
pub enum InputKind {
    Keyboard,
    Mouse,
}

/// The hosts the daemon publishes as device objects.
pub struct DeviceTracker {
    devices: DeviceMap<TrackedDevice>,
}

impl DeviceTracker {
    /// The published hosts.
    pub closed spec fn entries(&self) -> Seq<(Address, TrackedDevice)> {
        self.devices.entries()
    }

    /// No host is published twice (always so: the device map keeps it).
    pub open spec fn wf(&self) -> bool {
        distinct_addresses(self.entries())
    }

    /// No host published.
    pub fn new() -> (res: DeviceTracker)
        ensures
            res.wf(),
            res.entries() == Seq::<(Address, TrackedDevice)>::empty(),
    {
        DeviceTracker { devices: DeviceMap::new() }
    }

    /// A host registered with the keyboard or the mouse: it is published (if new) and
    /// marked as using that input. Returns whether its device object is new.
    pub fn register(&mut self, address: Address, kind: InputKind) -> (created: bool)
        ensures
            final(self).wf(),
            created == !has_address(old(self).entries(), address),
            ({
                let before = match lookup(old(self).entries(), address) {
                    Some(d) => d,
                    None => untracked(),
                };
                lookup(final(self).entries(), address) == Some(
                    match kind {
                        InputKind::Keyboard => TrackedDevice { has_keyboard: true, ..before },
                        InputKind::Mouse => TrackedDevice { has_mouse: true, ..before },
                    },
                )
            }),
            forall|a: Address| a != address ==> lookup(#[trigger] final(self).entries(), a) == lookup(old(self).entries(), a),
    {
        proof {
            use_type_invariant(&self.devices);
        }
        let ghost start = self.devices.entries();
        let (i, created) = self.devices.acquire_device(address);
        let mut d = self.devices.entry(i).1;
        proof {
            lemma_lookup_at(self.devices.entries(), i as int);
            if !created {
                lemma_lookup_at(start, i as int);
            }
        }
        match kind {
            InputKind::Keyboard => d.has_keyboard = true,
            InputKind::Mouse => d.has_mouse = true,
        }
        let ghost mid = self.devices.entries();
        self.devices.set_state(i, d);
        proof {
            let fin = self.devices.entries();
            lemma_lookup_at(fin, i as int);
            assert forall|a: Address| a != address implies lookup(fin, a) == lookup(start, a) by {
                lemma_lookup_update(mid, i as int, d, a);
                if created {
                    lemma_lookup_push(start, (address, untracked()), a);
                }
            }
        }
        created
    }

    /// A host went away: its device object is withdrawn. Returns whether it was published.
    pub fn remove(&mut self, address: Address) -> (res: bool)
        ensures
            final(self).wf(),
            res == has_address(old(self).entries(), address),
            !has_address(final(self).entries(), address),
            !res ==> final(self).entries() == old(self).entries(),
            forall|a: Address| a != address ==> lookup(#[trigger] final(self).entries(), a) == lookup(old(self).entries(), a),
    {
        self.devices.disconnect_device(address)
    }

    /// What is published about a host, if anything.
    pub fn device(&self, address: Address) -> (res: Option<TrackedDevice>)
        ensures
            res == lookup(self.entries(), address),
    {
        self.devices.get_device(address)
    }
}

} // verus!
