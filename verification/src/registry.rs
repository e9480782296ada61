use vstd::prelude::*;

use crate::address::Address;

verus! {

/// Handle of a bridge, as handed to D-Bus clients.
#[derive(Clone, Copy, Debug, PartialEq, Eq, Structural)]
pub struct Id(pub u64);

/// Hands out bridge handles in increasing order, starting at 0.
pub struct IdSource {
    pub id: u64,
}

impl IdSource {
    /// A source whose first handle is 0.
    pub fn new() -> (res: IdSource)
        ensures
            res.id == 0,
    {
        IdSource { id: 0 }
    }

    /// The next handle; no handle is handed out twice.
    pub fn next(&mut self) -> (res: Id)
        requires
            old(self).id < u64::MAX,
        ensures
            res.0 == old(self).id,
            final(self).id == old(self).id + 1,
    {
        let id = self.id;
        self.id = self.id + 1;
        Id(id)
    }
}

/// A running bridge as the daemon records it: its handle, the D-Bus client that
/// created it, the Bluetooth host it forwards to, and the bridge itself.
pub struct BridgeRecord<H> {
    pub id: Id,
    pub owner: String,
    pub target: Address,
    pub bridge: H,
}

/// Why a client's request to destroy a bridge was refused.
#[derive(Clone, Copy, Debug, PartialEq, Eq, Structural)]
pub enum DestroyError {
    /// No bridge has this handle.
    NoSuchHandle,
    /// The bridge belongs to another client.
    AccessDenied,
}

/// Whether no handle occurs twice among the records.
pub open spec fn distinct_ids<H>(records: Seq<BridgeRecord<H>>) -> bool {
    forall|i: int, j: int| 0 <= i < records.len() && 0 <= j < records.len() && i != j ==> records[i].id != records[j].id
}

/// Whether some record has the handle.
pub open spec fn has_id<H>(records: Seq<BridgeRecord<H>>, id: Id) -> bool {
    exists|i: int| 0 <= i < records.len() && records[i].id == id
}

/// The running bridges of the daemon, one record per handle.
pub struct BridgeRegistry<H> {
    records: Vec<BridgeRecord<H>>,
}

impl<H> BridgeRegistry<H> {
    /// The records, in the order the bridges were started.
    pub closed spec fn records(&self) -> Seq<BridgeRecord<H>> {
        self.records@
    }

    /// No handle is recorded twice; every registry keeps this.
    #[verifier::type_invariant]
    pub open spec fn wf(&self) -> bool {
        distinct_ids(self.records())
    }

    /// No bridge is running.
    pub fn new() -> (res: Self)
        ensures
            res.wf(),
            res.records() == Seq::<BridgeRecord<H>>::empty(),
    {
        BridgeRegistry { records: Vec::new() }
    }

    /// Number of running bridges.
    pub fn len(&self) -> (res: usize)
        ensures
            res == self.records().len(),
    {
        self.records.len()
    }

    /// Position of the record with handle `id`.
    fn position(&self, id: Id) -> (res: Option<usize>)
        ensures
            res matches Some(i) ==> i < self.records().len() && self.records()[i as int].id == id,
            res is None <==> !has_id(self.records(), id),
    {
        let mut i: usize = 0;
        while i < self.records.len()
            invariant
                i <= self.records@.len(),
                forall|j: int| 0 <= j < i ==> self.records@[j].id != id,
            decreases self.records@.len() - i,
        {
            if self.records[i].id == id {
                return Some(i);
            }
            i = i + 1;
        }
        None
    }

    /// Whether a bridge with handle `id` is running.
    pub fn contains(&self, id: Id) -> (res: bool)
        ensures
            res == has_id(self.records(), id),
    {
        self.position(id).is_some()
    }

    /// Takes the records out, leaving none; the caller puts records back.
    fn take_records(&mut self) -> (res: Vec<BridgeRecord<H>>)
        ensures
            res@ == old(self).records(),
            final(self).records() == Seq::<BridgeRecord<H>>::empty(),
            distinct_ids(res@),
    {
        proof {
            use_type_invariant(&*self);
        }
        let mut records: Vec<BridgeRecord<H>> = Vec::new();
        std::mem::swap(&mut records, &mut self.records);
        records
    }

    /// Records a started bridge. A record with the same handle is replaced and returned.
    pub fn insert(&mut self, record: BridgeRecord<H>) -> (res: Option<BridgeRecord<H>>)
        ensures
            final(self).wf(),
            res is Some <==> has_id(old(self).records(), record.id),
            res is None ==> final(self).records() == old(self).records().push(record),
            res matches Some(r) ==> exists|i: int|
                0 <= i < old(self).records().len() && old(self).records()[i] == r && r.id == record.id
                    && final(self).records() == old(self).records().update(i, record),
    {
        proof {
            use_type_invariant(&*self);
        }
        match self.position(record.id) {
            Some(i) => {
                let mut records = self.take_records();
                let ghost before = records@;
                let removed = records.remove(i);
                records.insert(i, record);
                assert(records@ =~= before.update(i as int, record));
                assert forall|j: int, k: int|
                    0 <= j < records@.len() && 0 <= k < records@.len() && j != k implies records@[j].id != records@[k].id by {
                    assert(records@[j].id == before[j].id && records@[k].id == before[k].id);
                }
                self.records = records;
                Some(removed)
            },
            None => {
                let mut records = self.take_records();
                let ghost before = records@;
                records.push(record);
                assert forall|j: int, k: int|
                    0 <= j < records@.len() && 0 <= k < records@.len() && j != k implies records@[j].id != records@[k].id by {
                    if j < before.len() && k < before.len() {
                        assert(records@[j] == before[j] && records@[k] == before[k]);
                    } else if j < before.len() {
                        assert(records@[j] == before[j]);
                    } else {
                        assert(records@[k] == before[k]);
                    }
                }
                self.records = records;
                None
            },
        }
    }

    /// Removes the bridge with handle `id` (it died, or its escape shortcut was used).
    pub fn remove(&mut self, id: Id) -> (res: Option<BridgeRecord<H>>)
        ensures
            final(self).wf(),
            res is Some <==> has_id(old(self).records(), id),
            !has_id(final(self).records(), id),
            res is None ==> final(self).records() == old(self).records(),
            res matches Some(r) ==> r.id == id && exists|i: int|
                0 <= i < old(self).records().len() && old(self).records()[i] == r
                    && final(self).records() == old(self).records().remove(i),
    {
        proof {
            use_type_invariant(&*self);
        }
        match self.position(id) {
            Some(i) => {
                let mut records = self.take_records();
                let ghost before = records@;
                let r = records.remove(i);
                assert(records@ == before.remove(i as int));
                assert forall|j: int| 0 <= j < records@.len() implies records@[j].id != id by {
                    if j < i {
                        assert(records@[j] == before[j]);
                    } else {
                        assert(records@[j] == before[j + 1]);
                    }
                }
                proof {
                    lemma_remove_keeps_distinct(before, i as int);
                }
                self.records = records;
                Some(r)
            },
            None => None,
        }
    }

    /// A client asks to destroy a bridge: only the client that created it may; the
    /// bridge is then removed and returned.
    pub fn destroy(&mut self, id: Id, sender: &String) -> (res: Result<BridgeRecord<H>, DestroyError>)
        ensures
            final(self).wf(),
            !has_id(old(self).records(), id) ==> res == Err::<BridgeRecord<H>, DestroyError>(
                DestroyError::NoSuchHandle,
            ) && final(self).records() == old(self).records(),
            forall|i: int|
                0 <= i < old(self).records().len() && #[trigger] old(self).records()[i].id == id ==> {
                    let r = old(self).records()[i];
                    if r.owner@ == sender@ {
                        res == Ok::<BridgeRecord<H>, DestroyError>(r) && final(self).records() == old(
                            self,
                        ).records().remove(i)
                    } else {
                        res == Err::<BridgeRecord<H>, DestroyError>(DestroyError::AccessDenied)
                            && final(self).records() == old(self).records()
                    }
                },
    {
        proof {
            use_type_invariant(&*self);
        }
        match self.position(id) {
            None => Err(DestroyError::NoSuchHandle),
            Some(i) => {
                if self.records[i].owner != *sender {
                    return Err(DestroyError::AccessDenied);
                }
                let mut records = self.take_records();
                let ghost before = records@;
                let r = records.remove(i);
                assert(records@ == before.remove(i as int));
                proof {
                    lemma_remove_keeps_distinct(before, i as int);
                }
                self.records = records;
                Ok(r)
            },
        }
    }

    /// Removes every bridge that `record_selected` picks (by owner, or by target),
    /// keeping the others in order; returns the removed records in order.
    fn remove_where(&mut self, owner: &String, target: Address, by_owner: bool) -> (res: Vec<BridgeRecord<H>>)
        ensures
            final(self).wf(),
            final(self).records() == old(self).records().filter(
                |r: BridgeRecord<H>| !record_selected(r, owner@, target, by_owner),
            ),
            res@ == old(self).records().filter(|r: BridgeRecord<H>| record_selected(r, owner@, target, by_owner)),
    {
        proof {
            use_type_invariant(&*self);
        }
        let ghost start = self.records@;
        let len0 = self.records.len();
        let mut kept: Vec<BridgeRecord<H>> = Vec::new();
        let mut removed: Vec<BridgeRecord<H>> = Vec::new();
        let mut rest = self.take_records();
        let mut n: usize = 0;
        assert(rest@ == start.subrange(0, start.len() as int));
        while rest.len() > 0
            invariant
                start.len() == len0,
                n + rest@.len() == start.len(),
                rest@ == start.subrange(n as int, start.len() as int),
                kept@ == start.take(n as int).filter(|r: BridgeRecord<H>| !record_selected(r, owner@, target, by_owner)),
                removed@ == start.take(n as int).filter(|r: BridgeRecord<H>| record_selected(r, owner@, target, by_owner)),
            decreases rest@.len(),
        {
            let ghost rest_before = rest@;
            let r = rest.remove(0);
            assert(rest@ == start.subrange(n + 1, start.len() as int));
            assert(start.take(n + 1) == start.take(n as int).push(start[n as int]));
            assert(r == start[n as int]);
            proof {
                start.take(n as int).lemma_filter_push(r, |r: BridgeRecord<H>| !record_selected(r, owner@, target, by_owner));
                start.take(n as int).lemma_filter_push(r, |r: BridgeRecord<H>| record_selected(r, owner@, target, by_owner));
            }
            let selected = if by_owner {
                r.owner == *owner
            } else {
                r.target.same(&target)
            };
            if selected {
                removed.push(r);
            } else {
                kept.push(r);
            }
            n = n + 1;
        }
        assert(start.take(n as int) == start);
        proof {
            lemma_filter_keeps_distinct(start, |r: BridgeRecord<H>| !record_selected(r, owner@, target, by_owner));
        }
        self.records = kept;
        removed
    }

    /// A D-Bus client went away: every bridge it created is removed (and returned).
    pub fn remove_owned_by(&mut self, owner: &String) -> (res: Vec<BridgeRecord<H>>)
        ensures
            final(self).wf(),
            final(self).records() == old(self).records().filter(|r: BridgeRecord<H>| r.owner@ != owner@),
            res@ == old(self).records().filter(|r: BridgeRecord<H>| r.owner@ == owner@),
    {
        let any = Address([0u8, 0u8, 0u8, 0u8, 0u8, 0u8]);
        let res = self.remove_where(owner, any, true);
        assert((|r: BridgeRecord<H>| !record_selected(r, owner@, any, true)) =~= (|r: BridgeRecord<H>| r.owner@ != owner@));
        assert((|r: BridgeRecord<H>| record_selected(r, owner@, any, true)) =~= (|r: BridgeRecord<H>| r.owner@ == owner@));
        res
    }

    /// A Bluetooth host went away: every bridge forwarding to it is removed (and returned).
    pub fn remove_targeting(&mut self, target: Address) -> (res: Vec<BridgeRecord<H>>)
        ensures
            final(self).wf(),
            final(self).records() == old(self).records().filter(|r: BridgeRecord<H>| r.target != target),
            res@ == old(self).records().filter(|r: BridgeRecord<H>| r.target == target),
    {
        let nobody = String::new();
        let res = self.remove_where(&nobody, target, false);
        assert((|r: BridgeRecord<H>| !record_selected(r, nobody@, target, false)) =~= (|r: BridgeRecord<H>| r.target != target));
        assert((|r: BridgeRecord<H>| record_selected(r, nobody@, target, false)) =~= (|r: BridgeRecord<H>| r.target == target));
        res
    }
}

/// Whether a record is selected for removal: by its owner, or by its target.
pub open spec fn record_selected<H>(r: BridgeRecord<H>, owner: Seq<char>, target: Address, by_owner: bool) -> bool {
    if by_owner {
        r.owner@ == owner
    } else {
        r.target == target
    }
}

/// Removing a record keeps handles distinct.
proof fn lemma_remove_keeps_distinct<H>(s: Seq<BridgeRecord<H>>, i: int)
    requires
        distinct_ids(s),
        0 <= i < s.len(),
    ensures
        distinct_ids(s.remove(i)),
{
    let r = s.remove(i);
    assert forall|j: int, k: int| 0 <= j < r.len() && 0 <= k < r.len() && j != k implies r[j].id != r[k].id by {
        let jb = if j < i { j } else { j + 1 };
        let kb = if k < i { k } else { k + 1 };
        assert(r[j] == s[jb] && r[k] == s[kb]);
    }
}

/// Filtering records keeps handles distinct.
proof fn lemma_filter_keeps_distinct<H>(s: Seq<BridgeRecord<H>>, pred: spec_fn(BridgeRecord<H>) -> bool)
    requires
        distinct_ids(s),
    ensures
        distinct_ids(s.filter(pred)),
    decreases s.len(),
{
    broadcast use vstd::seq_lib::group_filter_ensures;
    if s.len() > 0 {
        let init = s.drop_last();
        assert(distinct_ids(init));
        lemma_filter_keeps_distinct(init, pred);
        assert(s.filter(pred) == if pred(s.last()) { init.filter(pred).push(s.last()) } else { init.filter(pred) }) by {
            init.lemma_filter_push(s.last(), pred);
            assert(init.push(s.last()) == s);
        }
        let f = s.filter(pred);
        let fi = init.filter(pred);
        if pred(s.last()) {
            assert forall|i: int, j: int| 0 <= i < f.len() && 0 <= j < f.len() && i != j implies f[i].id != f[j].id by {
                if i < fi.len() && j < fi.len() {
                    assert(f[i] == fi[i] && f[j] == fi[j]);
                } else {
                    let other = if i == fi.len() { j } else { i };
                    assert(f[other] == fi[other]);
                    assert(fi.contains(fi[other]));
                    init.lemma_filter_contains_rev(pred, fi[other]);
                    let k = choose|k: int| 0 <= k < init.len() && init[k] == fi[other];
                    assert(s[k] == init[k]);
                    assert(f[fi.len() as int] == s[s.len() - 1]);
                }
            }
        }
    }
}

/// Whose bridges to clean up when a bus name changes owner: a client whose unique
/// name lost its owner (an old owner and no new one) has gone away.
pub fn vanished_owner(old_owner: Option<String>, new_owner: Option<String>) -> (res: Option<String>)
    ensures
        res == match (old_owner, new_owner) {
            (Some(o), None) => Some(o),
            _ => None::<String>,
        },
{
    match (old_owner, new_owner) {
        (Some(o), None) => Some(o),
        _ => None,
    }
}

/// Destroying a bridge undoes starting it: after recording a bridge with a fresh
/// handle, its creator's destroy request finds it (as the last record), removes
/// exactly it, and leaves the records as they were before.
pub proof fn lemma_destroy_undoes_insert<H>(records: Seq<BridgeRecord<H>>, record: BridgeRecord<H>)
    requires
        distinct_ids(records),
        !has_id(records, record.id),
    ensures
        ({
            let after = records.push(record);
            let i = records.len() as int;
            &&& distinct_ids(after)
            &&& has_id(after, record.id)
            &&& after[i].id == record.id
            &&& after[i] == record
            &&& after[i].owner@ == record.owner@
            &&& after.remove(i) == records
            &&& forall|j: int| 0 <= j < after.len() && after[j].id == record.id ==> j == i
        }),
{
    let after = records.push(record);
    let i = records.len() as int;
    assert(after.remove(i) =~= records);
    assert forall|j: int| 0 <= j < after.len() && after[j].id == record.id implies j == i by {
        if j < i {
            assert(after[j] == records[j]);
        }
    }
    assert(after[i].id == record.id);
    assert forall|a: int, b: int| 0 <= a < after.len() && 0 <= b < after.len() && a != b implies after[a].id != after[b].id by {
        if a < i && b < i {
            assert(after[a] == records[a] && after[b] == records[b]);
        } else if a == i {
            assert(after[b] == records[b]);
        } else {
            assert(after[a] == records[a]);
        }
    }
}

/// The records that survive removing a client's bridges.
pub open spec fn not_owned_by<H>(records: Seq<BridgeRecord<H>>, owner: Seq<char>) -> Seq<BridgeRecord<H>> {
    records.filter(|r: BridgeRecord<H>| r.owner@ != owner)
}

/// Once a client's bridges are removed, no bridge of that client is left, and the
/// bridges of every other client are all still there.
pub proof fn lemma_owner_cleanup<H>(records: Seq<BridgeRecord<H>>, owner: Seq<char>)
    ensures
        forall|i: int| 0 <= i < not_owned_by(records, owner).len() ==> (#[trigger] not_owned_by(records, owner)[i]).owner@ != owner,
        forall|i: int|
            0 <= i < records.len() && records[i].owner@ != owner ==> #[trigger] not_owned_by(records, owner).contains(records[i]),
{
    broadcast use vstd::seq_lib::group_filter_ensures;
}

/// A source hands out 0, 1, 2, ... in call order: given the source `new` makes
/// (`sources[0]`) and the handle and new source of each following `next` call, the
/// k-th handle is k, so handles are pairwise distinct and increasing.
pub proof fn lemma_ids_count_up(sources: Seq<IdSource>, handles: Seq<Id>)
    requires
        sources.len() == handles.len() + 1,
        sources[0].id == 0,
        forall|i: int|
            0 <= i < handles.len() ==> (#[trigger] handles[i]).0 == sources[i].id && sources[i + 1].id == sources[i].id + 1,
    ensures
        forall|i: int| 0 <= i < handles.len() ==> (#[trigger] handles[i]).0 == i,
        forall|i: int, j: int| 0 <= i < j < handles.len() ==> handles[i].0 < handles[j].0,
{
    assert forall|i: int| 0 <= i < sources.len() implies (#[trigger] sources[i]).id == i by {
        lemma_source_ids(sources, handles, i);
    }
    assert forall|i: int| 0 <= i < handles.len() implies (#[trigger] handles[i]).0 == i by {
        assert(sources[i].id == i);
    }
}

/// The source after `k` calls holds k.
proof fn lemma_source_ids(sources: Seq<IdSource>, handles: Seq<Id>, k: int)
    requires
        sources.len() == handles.len() + 1,
        sources[0].id == 0,
        forall|i: int|
            0 <= i < handles.len() ==> (#[trigger] handles[i]).0 == sources[i].id && sources[i + 1].id == sources[i].id + 1,
        0 <= k < sources.len(),
    ensures
        sources[k].id == k,
    decreases k,
{
    if k > 0 {
        lemma_source_ids(sources, handles, k - 1);
        assert(handles[k - 1].0 == sources[k - 1].id);
    }
}

} // verus!
