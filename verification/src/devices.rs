use vstd::prelude::*;

use crate::address::Address;

verus! {

/// Per-device state kept by a HID server, with the state a device starts in.
pub trait DeviceState: Sized + Copy {
    /// The state of a device the server has not heard from before.
    spec fn fresh_spec() -> Self;

    /// Builds the state of a device the server has not heard from before.
    fn fresh() -> (s: Self)
        ensures
            s == Self::fresh_spec(),
    ;
}

/// Whether no address occurs twice among the entries.
pub open spec fn distinct_addresses<T>(entries: Seq<(Address, T)>) -> bool {
    forall|i: int, j: int|
        0 <= i < entries.len() && 0 <= j < entries.len() && i != j ==> entries[i].0 != entries[j].0
}

/// Whether some entry belongs to `address`.
pub open spec fn has_address<T>(entries: Seq<(Address, T)>, address: Address) -> bool {
    exists|i: int| 0 <= i < entries.len() && entries[i].0 == address
}

/// The state recorded for `address`, if any.
pub open spec fn lookup<T>(entries: Seq<(Address, T)>, address: Address) -> Option<T> {
    if has_address(entries, address) {
        Some(entries[choose|i: int| 0 <= i < entries.len() && entries[i].0 == address].1)
    } else {
        None
    }
}

/// The states of the devices known to a server, one per address, in the order in
/// which the devices were first heard from.
pub struct DeviceMap<T> {
    devices: Vec<(Address, T)>,
}

impl<T> DeviceMap<T> {
    /// The known devices with their states.
    pub closed spec fn entries(&self) -> Seq<(Address, T)> {
        self.devices@
    }

    /// No device is recorded twice; every map keeps this.
    #[verifier::type_invariant]
    pub open spec fn wf(&self) -> bool {
        distinct_addresses(self.entries())
    }
}

impl<T: DeviceState> DeviceMap<T> {

    /// A map that knows no device.
    pub fn new() -> (res: Self)
        ensures
            res.wf(),
            res.entries() == Seq::<(Address, T)>::empty(),
    {
        DeviceMap { devices: Vec::new() }
    }

    /// Number of known devices.
    pub fn len(&self) -> (res: usize)
        ensures
            res == self.entries().len(),
    {
        self.devices.len()
    }

    /// The entry at position `i`.
    pub fn entry(&self, i: usize) -> (res: (Address, T))
        requires
            i < self.entries().len(),
        ensures
            res == self.entries()[i as int],
    {
        self.devices[i]
    }

    /// Position of the entry for `address`, if the device is known.
    pub fn position(&self, address: &Address) -> (res: Option<usize>)
        ensures
            res matches Some(i) ==> i < self.entries().len() && self.entries()[i as int].0 == *address,
            res is None <==> !has_address(self.entries(), *address),
    {
        proof {
            use_type_invariant(&*self);
        }
        let mut i: usize = 0;
        while i < self.devices.len()
            invariant
                i <= self.devices@.len(),
                forall|j: int| 0 <= j < i ==> self.devices@[j].0 != *address,
            decreases self.devices@.len() - i,
        {
            if self.devices[i].0.same(address) {
                return Some(i);
            }
            i = i + 1;
        }
        None
    }

    /// The state of a known device.
    pub fn get_device(&self, address: Address) -> (res: Option<T>)
        ensures
            res == lookup(self.entries(), address),
    {
        proof {
            use_type_invariant(&*self);
        }
        match self.position(&address) {
            Some(i) => {
                proof {
                    let entries = self.entries();
                    assert(entries[i as int].0 == address);
                    let k = choose|k: int| 0 <= k < entries.len() && entries[k].0 == address;
                    assert(k == i);
                }
                Some(self.devices[i].1)
            },
            None => None,
        }
    }

    /// Finds a device, recording it with a fresh state when it is new. Returns its
    /// position and whether it was new (a new device is announced by the caller).
    pub fn acquire_device(&mut self, address: Address) -> (res: (usize, bool))
        ensures
            final(self).wf(),
            res.0 < final(self).entries().len(),
            final(self).entries()[res.0 as int].0 == address,
            res.1 == !has_address(old(self).entries(), address),
            !res.1 ==> final(self).entries() == old(self).entries(),
            res.1 ==> final(self).entries() == old(self).entries().push((address, T::fresh_spec())),
            forall|a: Address| a != address ==> lookup(#[trigger] final(self).entries(), a) == lookup(old(self).entries(), a),
    {
        proof {
            use_type_invariant(&*self);
        }
        match self.position(&address) {
            Some(i) => (i, false),
            None => {
                let fresh = T::fresh();
                let mut devices = self.take_devices();
                let ghost before = devices@;
                devices.push((address, fresh));
                proof {
                    lemma_acquire_idempotent(before, address, fresh);
                    assert forall|a: Address| a != address implies lookup(devices@, a) == lookup(before, a) by {
                        lemma_lookup_push(before, (address, fresh), a);
                    }
                }
                let last = devices.len() - 1;
                self.devices = devices;
                (last, true)
            },
        }
    }

    /// Replaces the state of the device at position `i`.
    pub fn set_state(&mut self, i: usize, state: T)
        requires
            i < old(self).entries().len(),
        ensures
            final(self).wf(),
            final(self).entries() == old(self).entries().update(i as int, (old(self).entries()[i as int].0, state)),
            lookup(final(self).entries(), old(self).entries()[i as int].0) == Some(state),
            forall|a: Address|
                a != old(self).entries()[i as int].0 ==> lookup(#[trigger] final(self).entries(), a) == lookup(
                    old(self).entries(),
                    a,
                ),
    {
        proof {
            use_type_invariant(&*self);
        }
        let address = self.devices[i].0;
        let mut devices = self.take_devices();
        let ghost before = devices@;
        devices.set(i, (address, state));
        proof {
            assert forall|j: int, k: int|
                0 <= j < devices@.len() && 0 <= k < devices@.len() && j != k implies devices@[j].0 != devices@[k].0 by {
                assert(devices@[j].0 == before[j].0 && devices@[k].0 == before[k].0);
            }
            lemma_lookup_at(devices@, i as int);
            assert forall|a: Address| a != address implies lookup(devices@, a) == lookup(before, a) by {
                lemma_lookup_update(before, i as int, state, a);
            }
        }
        self.devices = devices;
    }

    /// Forgets a device. Returns whether it was known.
    pub fn disconnect_device(&mut self, address: Address) -> (res: bool)
        ensures
            final(self).wf(),
            res == has_address(old(self).entries(), address),
            !has_address(final(self).entries(), address),
            !res ==> final(self).entries() == old(self).entries(),
            res ==> exists|i: int|
                0 <= i < old(self).entries().len() && old(self).entries()[i].0 == address
                    && final(self).entries() == old(self).entries().remove(i),
            forall|a: Address| a != address ==> lookup(#[trigger] final(self).entries(), a) == lookup(old(self).entries(), a),
    {
        proof {
            use_type_invariant(&*self);
        }
        match self.position(&address) {
            Some(i) => {
                let mut devices = self.take_devices();
                let ghost before = devices@;
                devices.remove(i);
                assert(devices@ == before.remove(i as int));
                assert forall|j: int| 0 <= j < devices@.len() implies devices@[j].0 != address by {
                    if j < i {
                        assert(devices@[j] == before[j]);
                    } else {
                        assert(devices@[j] == before[j + 1]);
                    }
                }
                assert forall|j: int, k: int|
                    0 <= j < devices@.len() && 0 <= k < devices@.len() && j != k implies devices@[j].0 != devices@[k].0 by {
                    let jb = if j < i { j } else { j + 1 };
                    let kb = if k < i { k } else { k + 1 };
                    assert(devices@[j] == before[jb] && devices@[k] == before[kb]);
                }
                assert forall|a: Address| a != address implies lookup(devices@, a) == lookup(before, a) by {
                    lemma_lookup_remove(before, i as int, a);
                }
                self.devices = devices;
                true
            },
            None => false,
        }
    }

    /// Takes the entries out, leaving no device; the caller puts entries back.
    fn take_devices(&mut self) -> (res: Vec<(Address, T)>)
        ensures
            res@ == old(self).entries(),
            final(self).entries() == Seq::<(Address, T)>::empty(),
            distinct_addresses(res@),
    {
        proof {
            use_type_invariant(&*self);
        }
        let mut devices: Vec<(Address, T)> = Vec::new();
        std::mem::swap(&mut devices, &mut self.devices);
        devices
    }

    /// The addresses of all known devices, in order.
    pub fn addresses(&self) -> (res: Vec<Address>)
        ensures
            res@ == self.entries().map_values(|e: (Address, T)| e.0),
    {
        let mut res: Vec<Address> = Vec::new();
        let mut i: usize = 0;
        while i < self.devices.len()
            invariant
                i <= self.devices@.len(),
                res@ == self.devices@.take(i as int).map_values(|e: (Address, T)| e.0),
            decreases self.devices@.len() - i,
        {
            res.push(self.devices[i].0);
            assert(self.devices@.take(i + 1) == self.devices@.take(i as int).push(self.devices@[i as int]));
            i = i + 1;
        }
        assert(self.devices@.take(i as int) == self.devices@);
        res
    }
}

/// Recording a device twice changes nothing the second time: the second acquire finds
/// the entry the first one made (or found), and announces no new device.
pub proof fn lemma_acquire_idempotent<T>(entries: Seq<(Address, T)>, address: Address, fresh: T)
    requires
        distinct_addresses(entries),
    ensures
        ({
            let after = if has_address(entries, address) {
                entries
            } else {
                entries.push((address, fresh))
            };
            &&& distinct_addresses(after)
            &&& has_address(after, address)
        }),
{
    if !has_address(entries, address) {
        let after = entries.push((address, fresh));
        assert(after[entries.len() as int].0 == address);
        assert forall|i: int, j: int|
            0 <= i < after.len() && 0 <= j < after.len() && i != j implies after[i].0 != after[j].0 by {
            if i < entries.len() && j < entries.len() {
            } else if i == entries.len() {
                assert(after[j] == entries[j]);
            } else {
                assert(after[i] == entries[i]);
            }
        }
    }
}

/// In entries without duplicates, the entry at position `i` is what `lookup` finds.
pub proof fn lemma_lookup_at<T>(e: Seq<(Address, T)>, i: int)
    requires
        distinct_addresses(e),
        0 <= i < e.len(),
    ensures
        lookup(e, e[i].0) == Some(e[i].1),
{
    let a = e[i].0;
    assert(has_address(e, a));
    let k = choose|k: int| 0 <= k < e.len() && e[k].0 == a;
    assert(k == i);
}

/// Changing the state at one position does not change what other addresses look up.
pub proof fn lemma_lookup_update<T>(e: Seq<(Address, T)>, i: int, v: T, a: Address)
    requires
        distinct_addresses(e),
        0 <= i < e.len(),
        a != e[i].0,
    ensures
        lookup(e.update(i, (e[i].0, v)), a) == lookup(e, a),
{
    let u = e.update(i, (e[i].0, v));
    if has_address(e, a) {
        let k = choose|k: int| 0 <= k < e.len() && e[k].0 == a;
        assert(u[k] == e[k]);
        assert(has_address(u, a));
        let k2 = choose|k2: int| 0 <= k2 < u.len() && u[k2].0 == a;
        assert(k2 != i);
        assert(u[k2] == e[k2]);
        assert(k2 == k);
    } else {
        assert forall|k: int| 0 <= k < u.len() implies u[k].0 != a by {
            if k != i {
                assert(u[k] == e[k]);
            }
        }
    }
}

/// Appending an entry for another address does not change what an address looks up.
pub proof fn lemma_lookup_push<T>(e: Seq<(Address, T)>, x: (Address, T), a: Address)
    requires
        distinct_addresses(e),
        !has_address(e, x.0),
        a != x.0,
    ensures
        lookup(e.push(x), a) == lookup(e, a),
{
    let p = e.push(x);
    if has_address(e, a) {
        let k = choose|k: int| 0 <= k < e.len() && e[k].0 == a;
        assert(p[k] == e[k]);
        assert(has_address(p, a));
        let k2 = choose|k2: int| 0 <= k2 < p.len() && p[k2].0 == a;
        assert(k2 < e.len());
        assert(p[k2] == e[k2]);
        assert(e[k2].0 == e[k].0);
    } else {
        assert forall|k: int| 0 <= k < p.len() implies p[k].0 != a by {
            if k < e.len() {
                assert(p[k] == e[k]);
            }
        }
    }
}

/// Removing the entry at one position does not change what other addresses look up.
pub proof fn lemma_lookup_remove<T>(e: Seq<(Address, T)>, i: int, a: Address)
    requires
        distinct_addresses(e),
        0 <= i < e.len(),
        a != e[i].0,
    ensures
        lookup(e.remove(i), a) == lookup(e, a),
{
    let r = e.remove(i);
    assert forall|k: int| 0 <= k < r.len() implies r[k] == (if k < i { e[k] } else { e[k + 1] }) by {}
    if has_address(e, a) {
        let k = choose|k: int| 0 <= k < e.len() && e[k].0 == a;
        assert(k != i);
        let kr = if k < i { k } else { k - 1 };
        assert(r[kr] == e[k]);
        assert(has_address(r, a));
        let k2 = choose|k2: int| 0 <= k2 < r.len() && r[k2].0 == a;
        let ke = if k2 < i { k2 } else { k2 + 1 };
        assert(r[k2] == e[ke]);
        assert(ke == k);
    } else {
        assert forall|k: int| 0 <= k < r.len() implies r[k].0 != a by {
            let ke = if k < i { k } else { k + 1 };
            assert(r[k] == e[ke]);
        }
    }
}

} // verus!
