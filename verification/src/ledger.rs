//! The pending-transfer ledger of the batch pool: an ordered queue of
//! deposits that await their payout.

use vstd::prelude::*;
use crate::error::PoolError;

verus! {

/// One deposit that awaits its payout.
#[derive(Clone, Debug, PartialEq, Eq)]
pub struct PendingEntry {
    /// Where the payout goes.
    pub recipient: String,
    /// The depositor, where it was recorded.
    pub sender: Option<String>,
    /// The net amount, after the fee.
    pub amount: u128,
}

/// The queue of pending entries, oldest first, with the amount it holds.
#[derive(Clone, Debug, PartialEq, Eq)]
pub struct Ledger {
    pub entries: Vec<PendingEntry>,
    /// The sum of the entries' amounts.
    pub total: u128,
}

/// The sum of the amounts of `s`.
pub open spec fn entries_total(s: Seq<PendingEntry>) -> nat
    decreases s.len(),
{
    if s.len() == 0 {
        0
    } else {
        entries_total(s.drop_last()) + s.last().amount as nat
    }
}

/// Whether an entry is to be paid to `recipient`.
pub open spec fn pays(e: PendingEntry, recipient: Seq<char>) -> bool {
    e.recipient@ == recipient
}

/// The entries of `s` that are to be paid to `recipient`, in order.
pub open spec fn entries_of(s: Seq<PendingEntry>, recipient: Seq<char>) -> Seq<PendingEntry> {
    s.filter(|e: PendingEntry| pays(e, recipient))
}

/// The entries of `s` that are to be paid to someone else, in order.
pub open spec fn entries_of_others(s: Seq<PendingEntry>, recipient: Seq<char>) -> Seq<
    PendingEntry,
> {
    s.filter(|e: PendingEntry| !pays(e, recipient))
}

/// An entry added behind the others adds its amount to the total.
pub proof fn lemma_total_push(s: Seq<PendingEntry>, e: PendingEntry)
    ensures
        entries_total(s.push(e)) == entries_total(s) + e.amount as nat,
{
    assert(s.push(e).drop_last() =~= s);
}

/// The entries of one recipient and those of all others add up to the whole.
pub proof fn lemma_total_split(s: Seq<PendingEntry>, recipient: Seq<char>)
    ensures
        entries_total(entries_of(s, recipient)) + entries_total(entries_of_others(s, recipient))
            == entries_total(s),
    decreases s.len(),
{
    reveal(Seq::filter);
    if s.len() > 0 {
        lemma_total_split(s.drop_last(), recipient);
        let e = s.last();
        if pays(e, recipient) {
            lemma_total_push(entries_of(s.drop_last(), recipient), e);
        } else {
            lemma_total_push(entries_of_others(s.drop_last(), recipient), e);
        }
    }
}

/// What a filter keeps are the members that satisfy the predicate: each of
/// them is kept, and everything kept is one of them.
pub proof fn lemma_filter_members(s: Seq<PendingEntry>, pred: spec_fn(PendingEntry) -> bool)
    ensures
        forall|i: int| 0 <= i < s.len() && pred(#[trigger] s[i]) ==> s.filter(pred).contains(s[i]),
        forall|j: int|
            0 <= j < s.filter(pred).len() ==> pred(#[trigger] s.filter(pred)[j]) && s.contains(
                s.filter(pred)[j],
            ),
    decreases s.len(),
{
    reveal(Seq::filter);
    if s.len() > 0 {
        let rest = s.drop_last();
        let out = s.filter(pred);
        lemma_filter_members(rest, pred);
        assert forall|i: int| 0 <= i < s.len() && pred(#[trigger] s[i]) implies out.contains(
            s[i],
        ) by {
            if i == s.len() - 1 {
                assert(out[out.len() - 1] == s[i]);
            } else {
                assert(rest[i] == s[i]);
                let k = choose|k: int| 0 <= k < rest.filter(pred).len() && rest.filter(pred)[k] == s[i];
                assert(out[k] == s[i]);
            }
        }
        assert forall|j: int| 0 <= j < out.len() implies pred(#[trigger] out[j]) && s.contains(
            out[j],
        ) by {
            if j < rest.filter(pred).len() {
                assert(out[j] == rest.filter(pred)[j]);
                let k = choose|k: int| 0 <= k < rest.len() && rest[k] == out[j];
                assert(s[k] == out[j]);
            } else {
                assert(out[j] == s[s.len() - 1]);
            }
        }
    }
}

fn copy_entry(e: &PendingEntry) -> (r: PendingEntry)
    ensures
        r == *e,
{
    let sender: Option<String> = match &e.sender {
        Some(s) => Some(s.clone()),
        None => None,
    };
    PendingEntry { recipient: e.recipient.clone(), sender, amount: e.amount }
}

impl Ledger {
    /// The recorded total is the sum of the entries.
    pub open spec fn wf(&self) -> bool {
        self.total as nat == entries_total(self.entries@)
    }

    /// The number of pending entries.
    pub open spec fn size(&self) -> nat {
        self.entries@.len()
    }

    /// Whether this ledger is well formed.
    pub fn is_valid(&self) -> (r: bool)
        ensures
            r == self.wf(),
    {
        let mut sum: u128 = 0;
        let mut i: usize = 0;
        while i < self.entries.len()
            invariant
                i <= self.entries@.len(),
                sum as nat == entries_total(self.entries@.take(i as int)),
            decreases self.entries@.len() - i,
        {
            proof {
                assert(self.entries@.take(i + 1).drop_last() =~= self.entries@.take(i as int));
                lemma_total_prefix(self.entries@, i + 1);
            }
            match sum.checked_add(self.entries[i].amount) {
                Some(next) => {
                    sum = next;
                },
                None => {
                    return false;
                },
            }
            i += 1;
        }
        assert(self.entries@.take(self.entries@.len() as int) =~= self.entries@);
        sum == self.total
    }

    /// A ledger without entries.
    pub fn new() -> (r: Ledger)
        ensures
            r.wf(),
            r.entries@ == Seq::<PendingEntry>::empty(),
            r.total == 0,
    {
        Ledger { entries: Vec::new(), total: 0 }
    }

    /// The number of pending entries.
    pub fn len(&self) -> (r: usize)
        ensures
            r == self.size(),
    {
        self.entries.len()
    }

    /// Adds `entry` behind the others. Refused, with nothing changed, only
    /// where the total would leave its integer type.
    pub fn append(&mut self, entry: PendingEntry) -> (r: Result<(), PoolError>)
        requires
            old(self).wf(),
        ensures
            final(self).wf(),
            old(self).total + entry.amount > u128::MAX ==> r == Err::<(), PoolError>(
                PoolError::Overflow,
            ) && *final(self) == *old(self),
            old(self).total + entry.amount <= u128::MAX ==> r == Ok::<(), PoolError>(())
                && final(self).entries@ == old(self).entries@.push(entry) && final(self).total
                == old(self).total + entry.amount,
    {
        match self.total.checked_add(entry.amount) {
            Some(sum) => {
                proof {
                    lemma_total_push(self.entries@, entry);
                }
                self.total = sum;
                self.entries.push(entry);
                Ok(())
            },
            None => Err(PoolError::Overflow),
        }
    }

    /// Hands out every entry, oldest first, and leaves the ledger empty.
    pub fn flush_all(&mut self) -> (r: Vec<PendingEntry>)
        requires
            old(self).wf(),
        ensures
            final(self).wf(),
            r@ == old(self).entries@,
            final(self).entries@ == Seq::<PendingEntry>::empty(),
            final(self).total == 0,
    {
        let mut drained: Vec<PendingEntry> = Vec::new();
        core::mem::swap(&mut self.entries, &mut drained);
        self.total = 0;
        drained
    }

    /// Takes out every entry that is to be paid to `recipient` and hands them
    /// out in order. The entries of all others stay, in order, and the total
    /// goes down by exactly what left.
    pub fn remove_matching(&mut self, recipient: &String) -> (r: Vec<PendingEntry>)
        requires
            old(self).wf(),
        ensures
            final(self).wf(),
            r@ == entries_of(old(self).entries@, recipient@),
            final(self).entries@ == entries_of_others(old(self).entries@, recipient@),
            final(self).total + entries_total(r@) == old(self).total,
    {
        let mut all: Vec<PendingEntry> = Vec::new();
        core::mem::swap(&mut self.entries, &mut all);
        let mut removed: Vec<PendingEntry> = Vec::new();
        let mut kept: Vec<PendingEntry> = Vec::new();
        let mut kept_total: u128 = 0;
        let mut i: usize = 0;
        while i < all.len()
            invariant
                i <= all@.len(),
                all@ == old(self).entries@,
                old(self).wf(),
                removed@ == entries_of(all@.take(i as int), recipient@),
                kept@ == entries_of_others(all@.take(i as int), recipient@),
                kept_total as nat == entries_total(kept@),
                entries_total(all@.take(i as int)) <= entries_total(all@),
            decreases all@.len() - i,
        {
            let entry = copy_entry(&all[i]);
            proof {
                reveal(Seq::filter);
                let t = all@.take(i + 1);
                assert(t.drop_last() =~= all@.take(i as int));
                assert(t.last() == all@[i as int]);
                lemma_total_split(all@.take(i as int), recipient@);
                lemma_total_prefix(all@, i + 1);
                lemma_total_push(kept@, entry);
            }
            if entry.recipient == *recipient {
                removed.push(entry);
            } else {
                kept_total = kept_total + entry.amount;
                kept.push(entry);
            }
            i += 1;
        }
        proof {
            assert(all@.take(all@.len() as int) =~= all@);
            lemma_total_split(all@, recipient@);
        }
        self.entries = kept;
        self.total = kept_total;
        removed
    }
}

proof fn lemma_total_prefix(s: Seq<PendingEntry>, n: int)
    requires
        0 <= n <= s.len(),
    ensures
        entries_total(s.take(n)) <= entries_total(s),
    decreases s.len() - n,
{
    if n < s.len() {
        lemma_total_prefix(s, n + 1);
        assert(s.take(n + 1).drop_last() =~= s.take(n));
    } else {
        assert(s.take(n) =~= s);
    }
}

} // verus!
