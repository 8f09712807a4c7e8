//! The persisted state: configuration, pending entries and the keyed store
//! that holds the entries of the ticket pool.

use vstd::prelude::*;
use crate::bytes::{copy_bytes, same_bytes};
use crate::error::PoolError;

verus! {

/// The pool's configuration. Only the admin changes it.
#[derive(Clone, Debug, PartialEq, Eq)]
pub struct Config {
    /// Recipient of fees, and the only principal that may change the
    /// configuration.
    pub admin: String,
    /// The principal that finalizes payouts of the ticket pool.
    pub operator: String,
    /// Whether deposits and payouts are allowed.
    pub active: bool,
    /// Lower bound of the randomized flush threshold.
    pub min_stack: u8,
    /// Upper bound of the randomized flush threshold.
    pub max_stack: u8,
    /// Flat fee per deposit. A deposit must exceed it.
    pub fee: u128,
    /// The part of the fee that goes to the operator.
    pub op_share: u128,
}

/// Whether an operator share and a fee may stand together.
pub open spec fn shares_valid(fee: u128, op_share: u128) -> bool {
    op_share < fee
}

/// Whether two stack bounds may stand together.
pub open spec fn bounds_valid(min_stack: u8, max_stack: u8) -> bool {
    1 <= min_stack <= max_stack
}

impl Config {
    /// The operator's share is below the fee, and the stack bounds are
    /// ordered and positive.
    pub open spec fn wf(&self) -> bool {
        shares_valid(self.fee, self.op_share) && bounds_valid(self.min_stack, self.max_stack)
    }

    /// Whether this configuration is well formed.
    pub fn is_valid(&self) -> (r: bool)
        ensures
            r == self.wf(),
    {
        self.op_share < self.fee && 1 <= self.min_stack && self.min_stack <= self.max_stack
    }
}

/// A pending entry of the ticket pool: the net amount that its key redeems.
#[derive(Clone, Copy, Debug, PartialEq, Eq, Structural)]
pub struct Pair {
    pub gas: u128,
}

/// One occupied place of the keyed store.
#[derive(Clone, Debug, PartialEq, Eq)]
pub struct Slot {
    pub key: Vec<u8>,
    pub value: Pair,
}

/// The keyed store of the ticket pool: at most one entry per key.
#[derive(Clone, Debug, PartialEq, Eq)]
pub struct TicketStore {
    pub slots: Vec<Slot>,
}

/// Whether some slot is filed under `k`.
pub open spec fn has_key(s: Seq<Slot>, k: Seq<u8>) -> bool {
    exists|i: int| 0 <= i < s.len() && (#[trigger] s[i]).key@ == k
}

/// The place of the slot filed under `k`.
pub open spec fn index_of(s: Seq<Slot>, k: Seq<u8>) -> int {
    choose|i: int| 0 <= i < s.len() && (#[trigger] s[i]).key@ == k
}

/// No two slots share a key.
pub open spec fn distinct_keys(s: Seq<Slot>) -> bool {
    forall|i: int, j: int| 0 <= i < j < s.len() ==> (#[trigger] s[i]).key@ != (#[trigger] s[j]).key@
}

/// The slots as a map from key to entry.
pub open spec fn slots_map(s: Seq<Slot>) -> Map<Seq<u8>, Pair> {
    Map::new(|k: Seq<u8>| has_key(s, k), |k: Seq<u8>| s[index_of(s, k)].value)
}

/// The sum of the amounts held in the slots.
pub open spec fn slots_total(s: Seq<Slot>) -> nat
    decreases s.len(),
{
    if s.len() == 0 {
        0
    } else {
        slots_total(s.drop_last()) + s.last().value.gas as nat
    }
}

/// The amount filed under `k`, or zero where nothing is.
pub open spec fn amount_at(m: Map<Seq<u8>, Pair>, k: Seq<u8>) -> nat {
    if m.contains_key(k) {
        m[k].gas as nat
    } else {
        0
    }
}

/// One if something is filed under `k`, else zero.
pub open spec fn count_at(m: Map<Seq<u8>, Pair>, k: Seq<u8>) -> nat {
    if m.contains_key(k) {
        1
    } else {
        0
    }
}

proof fn lemma_slot_at(s: Seq<Slot>, i: int)
    requires
        distinct_keys(s),
        0 <= i < s.len(),
    ensures
        has_key(s, s[i].key@),
        index_of(s, s[i].key@) == i,
        slots_map(s).contains_key(s[i].key@),
        slots_map(s)[s[i].key@] == s[i].value,
{
    let k = s[i].key@;
    assert(0 <= i < s.len() && s[i].key@ == k);
    let j = index_of(s, k);
    assert(0 <= j < s.len() && s[j].key@ == k);
    if j < i {
        assert(s[j].key@ != s[i].key@);
    } else if i < j {
        assert(s[i].key@ != s[j].key@);
    }
}

proof fn lemma_total_push(s: Seq<Slot>, x: Slot)
    ensures
        slots_total(s.push(x)) == slots_total(s) + x.value.gas as nat,
{
    assert(s.push(x).drop_last() =~= s);
}

proof fn lemma_total_update(s: Seq<Slot>, i: int, x: Slot)
    requires
        0 <= i < s.len(),
    ensures
        slots_total(s.update(i, x)) + s[i].value.gas as nat == slots_total(s) + x.value.gas as nat,
    decreases s.len(),
{
    if i == s.len() - 1 {
        assert(s.update(i, x).drop_last() =~= s.drop_last());
    } else {
        lemma_total_update(s.drop_last(), i, x);
        assert(s.update(i, x).drop_last() =~= s.drop_last().update(i, x));
    }
}

proof fn lemma_total_remove(s: Seq<Slot>, i: int)
    requires
        0 <= i < s.len(),
    ensures
        slots_total(s.remove(i)) + s[i].value.gas as nat == slots_total(s),
    decreases s.len(),
{
    if i == s.len() - 1 {
        assert(s.remove(i) =~= s.drop_last());
    } else {
        lemma_total_remove(s.drop_last(), i);
        assert(s.remove(i).drop_last() =~= s.drop_last().remove(i));
        assert(s.remove(i).last() == s.last());
    }
}

/// With distinct keys the map holds as many entries as there are slots.
pub proof fn lemma_count_is_domain_size(s: Seq<Slot>)
    requires
        distinct_keys(s),
    ensures
        slots_map(s).dom().finite(),
        slots_map(s).dom().len() == s.len(),
    decreases s.len(),
{
    if s.len() == 0 {
        assert(slots_map(s).dom() =~= Set::<Seq<u8>>::empty());
    } else {
        let rest = s.drop_last();
        let k = s.last().key@;
        assert(distinct_keys(rest)) by {
            assert forall|i: int, j: int| 0 <= i < j < rest.len() implies (#[trigger] rest[i]).key@
                != (#[trigger] rest[j]).key@ by {
                assert(rest[i] == s[i] && rest[j] == s[j]);
            }
        }
        lemma_count_is_domain_size(rest);
        assert(!has_key(rest, k)) by {
            if has_key(rest, k) {
                let i = index_of(rest, k);
                assert(s[i].key@ != s[s.len() - 1].key@);
            }
        }
        assert forall|x: Seq<u8>| has_key(s, x) == (x == k || has_key(rest, x)) by {
            if has_key(s, x) {
                let i = index_of(s, x);
                if i < rest.len() {
                    assert(rest[i].key@ == x);
                }
            }
            if has_key(rest, x) {
                let i = index_of(rest, x);
                assert(s[i].key@ == x);
            }
            if x == k {
                assert(s[s.len() - 1].key@ == x);
            }
        }
        assert(slots_map(s).dom() =~= slots_map(rest).dom().insert(k));
    }
}

impl View for TicketStore {
    type V = Map<Seq<u8>, Pair>;

    open spec fn view(&self) -> Map<Seq<u8>, Pair> {
        slots_map(self.slots@)
    }
}

impl TicketStore {
    /// No key is filed twice.
    pub open spec fn wf(&self) -> bool {
        distinct_keys(self.slots@)
    }

    /// The sum of all amounts held.
    pub open spec fn total(&self) -> nat {
        slots_total(self.slots@)
    }

    /// The number of entries held.
    pub open spec fn count(&self) -> nat {
        self.slots@.len()
    }

    /// A store that holds nothing.
    pub fn new() -> (r: TicketStore)
        ensures
            r.wf(),
            r@ == Map::<Seq<u8>, Pair>::empty(),
            r.total() == 0,
            r.count() == 0,
    {
        let r = TicketStore { slots: Vec::new() };
        assert(r@ =~= Map::<Seq<u8>, Pair>::empty());
        r
    }

    /// The number of entries held.
    pub fn len(&self) -> (r: usize)
        ensures
            r == self.count(),
    {
        self.slots.len()
    }

    /// Whether this store is well formed.
    pub fn is_valid(&self) -> (r: bool)
        ensures
            r == self.wf(),
    {
        let mut j: usize = 0;
        while j < self.slots.len()
            invariant
                j <= self.slots@.len(),
                forall|a: int, b: int|
                    0 <= a < b < j ==> (#[trigger] self.slots@[a]).key@ != (
                    #[trigger] self.slots@[b]).key@,
            decreases self.slots@.len() - j,
        {
            let mut i: usize = 0;
            while i < j
                invariant
                    i <= j < self.slots@.len(),
                    forall|a: int| 0 <= a < i ==> (#[trigger] self.slots@[a]).key@ != self.slots@[j as int].key@,
                decreases j - i,
            {
                if same_bytes(self.slots[i].key.as_slice(), self.slots[j].key.as_slice()) {
                    assert(self.slots@[i as int].key@ == self.slots@[j as int].key@);
                    return false;
                }
                i += 1;
            }
            j += 1;
        }
        true
    }

    fn find(&self, key: &[u8]) -> (r: Option<usize>)
        ensures
            match r {
                Some(i) => i < self.slots@.len() && self.slots@[i as int].key@ == key@,
                None => !has_key(self.slots@, key@),
            },
    {
        let mut i: usize = 0;
        while i < self.slots.len()
            invariant
                i <= self.slots@.len(),
                forall|j: int| 0 <= j < i ==> (#[trigger] self.slots@[j]).key@ != key@,
            decreases self.slots@.len() - i,
        {
            if same_bytes(self.slots[i].key.as_slice(), key) {
                return Some(i);
            }
            i += 1;
        }
        None
    }
}

/// The entry filed under `key`, if there is one.
pub fn may_load(storage: &TicketStore, key: &[u8]) -> (r: Option<Pair>)
    requires
        storage.wf(),
    ensures
        r == (if storage@.contains_key(key@) {
            Some(storage@[key@])
        } else {
            None
        }),
{
    match storage.find(key) {
        Some(i) => {
            proof {
                lemma_slot_at(storage.slots@, i as int);
            }
            Some(storage.slots[i].value)
        },
        None => None,
    }
}

/// The entry filed under `key`; `NotFound` where there is none.
pub fn load(storage: &TicketStore, key: &[u8]) -> (r: Result<Pair, PoolError>)
    requires
        storage.wf(),
    ensures
        r == (if storage@.contains_key(key@) {
            Ok::<Pair, PoolError>(storage@[key@])
        } else {
            Err::<Pair, PoolError>(PoolError::NotFound)
        }),
{
    match may_load(storage, key) {
        Some(value) => Ok(value),
        None => Err(PoolError::NotFound),
    }
}

/// Files `value` under `key`, in place of what was filed there before.
pub fn save(storage: &mut TicketStore, key: &[u8], value: &Pair)
    requires
        old(storage).wf(),
    ensures
        final(storage).wf(),
        final(storage)@ == old(storage)@.insert(key@, *value),
        final(storage).total() + amount_at(old(storage)@, key@) == old(storage).total()
            + value.gas as nat,
        final(storage).count() == old(storage).count() + 1 - count_at(old(storage)@, key@),
{
    let ghost before = storage.slots@;
    match storage.find(key) {
        Some(i) => {
            let slot = Slot { key: copy_bytes(key), value: *value };
            proof {
                lemma_slot_at(before, i as int);
                lemma_total_update(before, i as int, slot);
            }
            storage.slots[i] = slot;
            proof {
                let after = storage.slots@;
                assert(after == before.update(i as int, slot));
                assert forall|a: int, b: int| 0 <= a < b < after.len() implies (#[trigger] after[a]).key@
                    != (#[trigger] after[b]).key@ by {
                    assert(after[a].key@ == before[a].key@);
                    assert(after[b].key@ == before[b].key@);
                }
                assert forall|k: Seq<u8>| has_key(after, k) == has_key(before, k) by {
                    if has_key(after, k) {
                        let a = index_of(after, k);
                        assert(before[a].key@ == k);
                    }
                    if has_key(before, k) {
                        let a = index_of(before, k);
                        assert(after[a].key@ == k);
                    }
                }
                assert forall|k: Seq<u8>| has_key(after, k) implies slots_map(after)[k] == (
                if k == key@ {
                    *value
                } else {
                    slots_map(before)[k]
                }) by {
                    let a = index_of(after, k);
                    lemma_slot_at(after, a);
                    lemma_slot_at(before, a);
                }
                assert(slots_map(after) =~= slots_map(before).insert(key@, *value));
            }
        },
        None => {
            let slot = Slot { key: copy_bytes(key), value: *value };
            proof {
                lemma_total_push(before, slot);
            }
            storage.slots.push(slot);
            proof {
                let after = storage.slots@;
                assert(after == before.push(slot));
                assert forall|a: int, b: int| 0 <= a < b < after.len() implies (#[trigger] after[a]).key@
                    != (#[trigger] after[b]).key@ by {
                    if b < before.len() {
                        assert(after[a] == before[a] && after[b] == before[b]);
                    } else {
                        assert(after[a] == before[a]);
                        assert(before[a].key@ != key@);
                    }
                }
                assert forall|k: Seq<u8>| has_key(after, k) == (k == key@ || has_key(before, k)) by {
                    if has_key(after, k) {
                        let a = index_of(after, k);
                        if a < before.len() {
                            assert(before[a].key@ == k);
                        }
                    }
                    if has_key(before, k) {
                        let a = index_of(before, k);
                        assert(after[a].key@ == k);
                    }
                    if k == key@ {
                        assert(after[before.len() as int].key@ == k);
                    }
                }
                assert forall|k: Seq<u8>| has_key(after, k) implies slots_map(after)[k] == (
                if k == key@ {
                    *value
                } else {
                    slots_map(before)[k]
                }) by {
                    let a = index_of(after, k);
                    lemma_slot_at(after, a);
                    if a < before.len() {
                        assert(before[a] == after[a]);
                        lemma_slot_at(before, a);
                    }
                }
                assert(slots_map(after) =~= slots_map(before).insert(key@, *value));
            }
        },
    }
}

/// Takes out the entry filed under `key` and hands it over; `NotFound`, with
/// the store unchanged, where there is none.
pub fn take_by_key(storage: &mut TicketStore, key: &[u8]) -> (r: Result<Pair, PoolError>)
    requires
        old(storage).wf(),
    ensures
        final(storage).wf(),
        !old(storage)@.contains_key(key@) ==> r == Err::<Pair, PoolError>(PoolError::NotFound)
            && *final(storage) == *old(storage),
        old(storage)@.contains_key(key@) ==> {
            &&& r == Ok::<Pair, PoolError>(old(storage)@[key@])
            &&& final(storage)@ == old(storage)@.remove(key@)
            &&& final(storage).total() + old(storage)@[key@].gas == old(storage).total()
            &&& final(storage).count() + 1 == old(storage).count()
        },
{
    match may_load(storage, key) {
        Some(value) => {
            remove(storage, key);
            Ok(value)
        },
        None => Err(PoolError::NotFound),
    }
}

/// Removes what is filed under `key`, if anything.
pub fn remove(storage: &mut TicketStore, key: &[u8])
    requires
        old(storage).wf(),
    ensures
        final(storage).wf(),
        final(storage)@ == old(storage)@.remove(key@),
        final(storage).total() + amount_at(old(storage)@, key@) == old(storage).total(),
        final(storage).count() + count_at(old(storage)@, key@) == old(storage).count(),
{
    let ghost before = storage.slots@;
    match storage.find(key) {
        Some(i) => {
            proof {
                lemma_slot_at(before, i as int);
                lemma_total_remove(before, i as int);
            }
            let _ = storage.slots.remove(i);
            proof {
                let after = storage.slots@;
                assert(after == before.remove(i as int));
                assert forall|a: int| 0 <= a < after.len() implies (#[trigger] after[a]) == before[if a
                    < i {
                    a
                } else {
                    a + 1
                }] by {}
                assert forall|a: int, b: int| 0 <= a < b < after.len() implies (#[trigger] after[a]).key@
                    != (#[trigger] after[b]).key@ by {
                    let a0 = if a < i { a } else { a + 1 };
                    let b0 = if b < i { b } else { b + 1 };
                    assert(before[a0].key@ != before[b0].key@);
                }
                assert forall|k: Seq<u8>| has_key(after, k) == (k != key@ && has_key(before, k)) by {
                    if has_key(after, k) {
                        let a = index_of(after, k);
                        let a0 = if a < i { a } else { a + 1 };
                        assert(before[a0].key@ == k);
                        if a0 < i {
                            assert(before[a0].key@ != before[i as int].key@);
                        } else {
                            assert(before[i as int].key@ != before[a0].key@);
                        }
                    }
                    if k != key@ && has_key(before, k) {
                        let a0 = index_of(before, k);
                        let a = if a0 < i { a0 } else { a0 - 1 };
                        assert(after[a].key@ == k);
                    }
                }
                assert forall|k: Seq<u8>| has_key(after, k) implies slots_map(after)[k] == slots_map(
                    before,
                )[k] by {
                    let a = index_of(after, k);
                    let a0 = if a < i { a } else { a + 1 };
                    lemma_slot_at(after, a);
                    lemma_slot_at(before, a0);
                }
                assert(slots_map(after) =~= slots_map(before).remove(key@));
            }
        },
        None => {
            assert(storage@ =~= old(storage)@.remove(key@));
        },
    }
}

} // verus!
