//! Container for partitions.
//!
//! A [`Table`] is an ordered collection of [`Partition`] entries, either a
//! snapshot read from a label or a set of entries a caller intends to apply.
//! It has no connection with live label state or on-disk data.  A table
//! materialized from a label carries that label's maximum entry count; a
//! caller-built table is unbounded.

use crate::errors::FdiskError;
use crate::iter::Iter;
use crate::partition::{
    lemma_parts_view_push, lemma_parts_view_remove, parts_view, PartV, Partition,
};
use vstd::prelude::*;

verus! {

/// The first index whose entry carries the partition number `partno`.
pub open spec fn find_by_partno(s: Seq<PartV>, partno: usize) -> Option<int>
    decreases s.len(),
{
    if s.len() == 0 {
        None
    } else if s[0].partno == Some(partno) {
        Some(0int)
    } else {
        match find_by_partno(s.skip(1), partno) {
            Some(i) => Some(i + 1),
            None => None,
        }
    }
}

/// What [`find_by_partno`] returns: the first matching index, or absence
/// when no entry matches.
pub proof fn lemma_find_by_partno(s: Seq<PartV>, partno: usize)
    ensures
        match find_by_partno(s, partno) {
            Some(i) => 0 <= i < s.len() && s[i].partno == Some(partno) && forall|j: int|
                0 <= j < i ==> s[j].partno != Some(partno),
            None => forall|j: int| 0 <= j < s.len() ==> s[j].partno != Some(partno),
        },
    decreases s.len(),
{
    if s.len() > 0 && s[0].partno != Some(partno) {
        let t = s.skip(1);
        lemma_find_by_partno(t, partno);
        match find_by_partno(t, partno) {
            Some(i) => {
                assert(t[i] == s[i + 1]);
                assert forall|j: int| 0 <= j < i + 1 implies s[j].partno != Some(partno) by {
                    if j > 0 {
                        assert(t[j - 1] == s[j]);
                    }
                }
            },
            None => {
                assert forall|j: int| 0 <= j < s.len() implies s[j].partno != Some(partno) by {
                    if j > 0 {
                        assert(t[j - 1] == s[j]);
                    }
                }
            },
        }
    }
}

/// The first index whose entry has the abstract value `v`.
pub open spec fn find_entry(s: Seq<PartV>, v: PartV) -> Option<int>
    decreases s.len(),
{
    if s.len() == 0 {
        None
    } else if s[0] == v {
        Some(0int)
    } else {
        match find_entry(s.skip(1), v) {
            Some(i) => Some(i + 1),
            None => None,
        }
    }
}

/// What [`find_entry`] returns: the first structurally-equal index, or
/// absence when no entry is equal.
pub proof fn lemma_find_entry(s: Seq<PartV>, v: PartV)
    ensures
        match find_entry(s, v) {
            Some(i) => 0 <= i < s.len() && s[i] == v && forall|j: int| 0 <= j < i ==> s[j] != v,
            None => forall|j: int| 0 <= j < s.len() ==> s[j] != v,
        },
    decreases s.len(),
{
    if s.len() > 0 && s[0] != v {
        let t = s.skip(1);
        lemma_find_entry(t, v);
        match find_entry(t, v) {
            Some(i) => {
                assert(t[i] == s[i + 1]);
                assert forall|j: int| 0 <= j < i + 1 implies s[j] != v by {
                    if j > 0 {
                        assert(t[j - 1] == s[j]);
                    }
                }
            },
            None => {
                assert forall|j: int| 0 <= j < s.len() implies s[j] != v by {
                    if j > 0 {
                        assert(t[j - 1] == s[j]);
                    }
                }
            },
        }
    }
}

/// An entry takes part in the disk-order check when it has a defined start
/// and is not a whole-disk entry.
pub open spec fn order_relevant(p: PartV) -> bool {
    p.start is Some && !p.wholedisk
}

/// The entries that take part in the disk-order check appear in
/// non-decreasing start order.
pub open spec fn in_disk_order(s: Seq<PartV>) -> bool {
    forall|i: int, j: int|
        0 <= i < j < s.len() && order_relevant(#[trigger] s[i]) && order_relevant(#[trigger] s[j])
            ==> s[i].start->0 <= s[j].start->0
}

/// The state a table's entries are left in by a reset: no entries at all,
/// whatever the table held before.
pub open spec fn reset_entries(s: Seq<PartV>) -> Seq<PartV> {
    Seq::empty()
}

/// Resetting a table is idempotent: a second reset finds, and leaves, the
/// same empty entry sequence, so the table reports no entries both times.
pub proof fn lemma_reset_table_idempotent(s: Seq<PartV>)
    ensures
        reset_entries(reset_entries(s)) == reset_entries(s),
        reset_entries(s).len() == 0,
{
}

/// Entries added in ascending start order leave the table in disk order:
/// when every entry is order-relevant and every adjacent pair is in
/// non-decreasing start order, the whole sequence is in disk order.
pub proof fn lemma_adjacent_disk_order(s: Seq<PartV>)
    requires
        forall|i: int| 0 <= i < s.len() ==> order_relevant(#[trigger] s[i]),
        forall|k: int|
            #![trigger s[k], s[k + 1]]
            0 <= k < s.len() - 1 ==> s[k].start->0 <= s[k + 1].start->0,
    ensures
        in_disk_order(s),
{
    assert forall|i: int, j: int|
        0 <= i < j < s.len() && order_relevant(s[i]) && order_relevant(
            s[j],
        ) implies s[i].start->0 <= s[j].start->0 by {
        lemma_chain_le(s, i, j);
    }
}

/// Entries added in non-ascending start order put the table out of disk
/// order: one order-relevant pair with a later, smaller start suffices.
pub proof fn lemma_descending_pair_wrong_order(s: Seq<PartV>, i: int, j: int)
    requires
        0 <= i < j < s.len(),
        order_relevant(s[i]),
        order_relevant(s[j]),
        s[i].start->0 > s[j].start->0,
    ensures
        !in_disk_order(s),
{
}

proof fn lemma_chain_le(s: Seq<PartV>, i: int, j: int)
    requires
        forall|k: int|
            #![trigger s[k], s[k + 1]]
            0 <= k < s.len() - 1 ==> s[k].start->0 <= s[k + 1].start->0,
        0 <= i <= j < s.len(),
    ensures
        s[i].start->0 <= s[j].start->0,
    decreases j - i,
{
    if i < j {
        lemma_chain_le(s, i, j - 1);
        let k = j - 1;
        assert(s[k].start->0 <= s[k + 1].start->0);
    }
}

/// Container for partitions.
#[derive(Debug)]
pub struct Table {
    entries: Vec<Partition>,
    max: Option<usize>,
}

impl View for Table {
    type V = Seq<PartV>;

    closed spec fn view(&self) -> Seq<PartV> {
        parts_view(self.entries@)
    }
}

impl Table {
    /// The maximum entry count this table was materialized with, or absence
    /// for a caller-built table.
    pub closed spec fn spec_capacity(&self) -> Option<usize> {
        self.max
    }

    /// The table cannot take another entry.
    pub open spec fn spec_is_full(&self) -> bool {
        match self.spec_capacity() {
            Some(m) => self@.len() >= m,
            None => false,
        }
    }

    /// Returns a new, empty, unbounded table.
    pub fn new() -> (r: Table)
        ensures
            r@ == Seq::<PartV>::empty(),
            r.spec_capacity() is None,
    {
        let r = Table { entries: Vec::new(), max: None };
        proof {
            assert(r@ =~= Seq::<PartV>::empty());
        }
        r
    }

    /// Builds a table around the given entries, bounded by a label's
    /// maximum entry count.
    pub(crate) fn from_label_entries(entries: Vec<Partition>, max: usize) -> (r: Table)
        ensures
            r@ == parts_view(entries@),
            r.spec_capacity() == Some(max),
    {
        Table { entries, max: Some(max) }
    }

    /// Removes all entries from the table.  This does not touch any live
    /// label state.
    pub fn reset_table(&mut self) -> (r: Result<(), FdiskError>)
        ensures
            r is Ok,
            final(self)@ == reset_entries(old(self)@),
            final(self).spec_capacity() == old(self).spec_capacity(),
    {
        self.entries.clear();
        proof {
            assert(self@ =~= Seq::<PartV>::empty());
        }
        Ok(())
    }

    /// Appends an entry to the table, without reordering; fails with
    /// `Capacity` when the table's maximum entry count is reached, leaving
    /// the table unchanged.
    pub fn add_partition(&mut self, pa: &Partition) -> (r: Result<(), FdiskError>)
        ensures
            old(self).spec_is_full() ==> (r == Err::<(), FdiskError>(FdiskError::Capacity)
                && final(self)@ == old(self)@),
            !old(self).spec_is_full() ==> (r is Ok && final(self)@ == old(self)@.push(pa@)),
            final(self).spec_capacity() == old(self).spec_capacity(),
    {
        match self.max {
            Some(m) if self.entries.len() >= m => {
                return Err(FdiskError::Capacity);
            },
            _ => {},
        }
        let entry = pa.clone();
        proof {
            lemma_parts_view_push(self.entries@, entry);
        }
        self.entries.push(entry);
        Ok(())
    }

    /// Returns the number of entries in the table.
    pub fn nents(&self) -> (r: usize)
        ensures
            r == self@.len(),
    {
        self.entries.len()
    }

    /// Returns the `n`-th entry of the table, or absence when `n` is out of
    /// range.
    pub fn partition(&self, n: usize) -> (r: Option<Partition>)
        ensures
            n < self@.len() ==> (r matches Some(p) && p@ == self@[n as int]),
            n >= self@.len() ==> r is None,
    {
        if n < self.entries.len() {
            Some(self.entries[n].clone())
        } else {
            None
        }
    }

    /// Returns the first entry carrying the partition number `partno`, or
    /// absence when no entry matches.
    pub fn partition_by_partno(&self, partno: usize) -> (r: Option<Partition>)
        ensures
            match find_by_partno(self@, partno) {
                Some(i) => r matches Some(p) && p@ == self@[i],
                None => r is None,
            },
    {
        proof {
            lemma_find_by_partno(self@, partno);
        }
        let n = self.entries.len();
        let mut i: usize = 0;
        while i < n
            invariant
                n == self@.len(),
                n == self.entries@.len(),
                0 <= i <= n,
                forall|j: int| 0 <= j < i ==> (#[trigger] self@[j]).partno != Some(partno),
                match find_by_partno(self@, partno) {
                    Some(k) => 0 <= k < self@.len() && self@[k].partno == Some(partno) && forall|
                        j: int,
                    | 0 <= j < k ==> (#[trigger] self@[j]).partno != Some(partno),
                    None => forall|j: int|
                        0 <= j < self@.len() ==> (#[trigger] self@[j]).partno != Some(partno),
                },
            decreases n - i,
        {
            proof {
                assert(self@[i as int] == self.entries@[i as int]@);
            }
            let p = &self.entries[i];
            match p.partno() {
                Some(no) if no == partno => {
                    return Some(p.clone());
                },
                _ => {},
            }
            i += 1;
        }
        None
    }

    /// True when the table holds no entries.
    pub fn is_empty(&self) -> (r: bool)
        ensures
            r == (self@.len() == 0),
    {
        self.entries.is_empty()
    }

    /// Removes the first entry structurally equal to `pa`; fails with
    /// `NotFound` when no entry is equal, leaving the table unchanged.
    pub fn remove_partition(&mut self, pa: &Partition) -> (r: Result<(), FdiskError>)
        ensures
            match find_entry(old(self)@, pa@) {
                Some(i) => r is Ok && final(self)@ == old(self)@.remove(i),
                None => r == Err::<(), FdiskError>(FdiskError::NotFound) && final(self)@ == old(self)@,
            },
            final(self).spec_capacity() == old(self).spec_capacity(),
    {
        proof {
            lemma_find_entry(self@, pa@);
        }
        let n = self.entries.len();
        let mut i: usize = 0;
        while i < n
            invariant
                *self == *old(self),
                n == self@.len(),
                n == self.entries@.len(),
                0 <= i <= n,
                forall|j: int| 0 <= j < i ==> #[trigger] self@[j] != pa@,
                match find_entry(self@, pa@) {
                    Some(k) => 0 <= k < self@.len() && self@[k] == pa@ && forall|j: int|
                        0 <= j < k ==> #[trigger] self@[j] != pa@,
                    None => forall|j: int| 0 <= j < self@.len() ==> #[trigger] self@[j] != pa@,
                },
            decreases n - i,
        {
            proof {
                assert(self@[i as int] == self.entries@[i as int]@);
            }
            if self.entries[i] == *pa {
                proof {
                    lemma_parts_view_remove(self.entries@, i as int);
                }
                self.entries.remove(i);
                return Ok(());
            }
            i += 1;
        }
        Err(FdiskError::NotFound)
    }

    /// True when the table's entries are not in disk order: some entry with
    /// a defined start precedes another whose start is smaller (whole-disk
    /// entries and entries without a start are ignored).
    pub fn is_wrong_order(&self) -> (r: bool)
        ensures
            r == !in_disk_order(self@),
    {
        let n = self.entries.len();
        let mut i: usize = 0;
        let mut last: Option<u64> = None;
        while i < n
            invariant
                n == self@.len(),
                n == self.entries@.len(),
                0 <= i <= n,
                in_disk_order(self@.take(i as int)),
                match last {
                    Some(l) => (exists|k: int|
                        0 <= k < i && order_relevant(#[trigger] self@[k]) && self@[k].start->0 == l)
                        && forall|k: int|
                        0 <= k < i && order_relevant(#[trigger] self@[k]) ==> self@[k].start->0
                            <= l,
                    None => forall|k: int| 0 <= k < i ==> !order_relevant(#[trigger] self@[k]),
                },
            decreases n - i,
        {
            proof {
                assert(self@[i as int] == self.entries@[i as int]@);
            }
            let p = &self.entries[i];
            let relevant = p.start().is_some() && !p.is_wholedisk();
            if relevant {
                let st = match p.start() {
                    Some(v) => v,
                    None => 0,
                };
                match last {
                    Some(l) if st < l => {
                        proof {
                            let k = choose|k: int|
                                0 <= k < i && order_relevant(#[trigger] self@[k])
                                    && self@[k].start->0 == l;
                            assert(order_relevant(self@[k]) && order_relevant(self@[i as int])
                                && self@[k].start->0 > self@[i as int].start->0);
                            assert(!in_disk_order(self@));
                        }
                        return true;
                    },
                    _ => {},
                }
                last = Some(st);
            }
            proof {
                let t = self@.take(i + 1);
                assert forall|a: int, b: int|
                    0 <= a < b < t.len() && order_relevant(t[a]) && order_relevant(
                        t[b],
                    ) implies t[a].start->0 <= t[b].start->0 by {
                    assert(t[a] == self@[a]);
                    assert(t[b] == self@[b]);
                    if b < i {
                        assert(self@.take(i as int)[a] == self@[a]);
                        assert(self@.take(i as int)[b] == self@[b]);
                    }
                }
            }
            i += 1;
        }
        proof {
            assert(self@.take(n as int) =~= self@);
        }
        false
    }

    /// Returns a forward cursor over the table's entries; the table cannot
    /// be structurally mutated while the cursor is live.
    pub fn iter(&self) -> (r: Iter<'_>)
        ensures
            r.remaining() == self@,
    {
        Iter::new(self)
    }
}

impl Default for Table {
    /// The default table is empty and unbounded.
    fn default() -> (r: Self)
        ensures
            r@ == Seq::<PartV>::empty(),
            r.spec_capacity() is None,
    {
        Table::new()
    }
}

} // verus!
