//! Forward cursor over a table.
//!
//! An [`Iter`] borrows its [`Table`] for its whole lifetime, so the table
//! cannot be structurally mutated while a traversal is in progress.  The
//! cursor is forward-only and not restartable.

use crate::partition::{PartV, Partition};
use crate::table::Table;
use vstd::prelude::*;

verus! {

/// Forward cursor over a table's entries.
pub struct Iter<'a> {
    table: &'a Table,
    pos: usize,
}

impl<'a> Iter<'a> {
    /// The entries the cursor has not yet visited.
    pub closed spec fn remaining(&self) -> Seq<PartV> {
        if self.pos <= self.table@.len() {
            self.table@.skip(self.pos as int)
        } else {
            Seq::empty()
        }
    }

    /// Returns a cursor at the first entry of `table`.
    pub fn new(table: &'a Table) -> (r: Iter<'a>)
        ensures
            r.remaining() == table@,
    {
        let r = Iter { table, pos: 0 };
        proof {
            assert(r.remaining() =~= table@);
        }
        r
    }

    /// Returns the next entry and advances the cursor, or absence when the
    /// traversal is exhausted.
    pub fn next(&mut self) -> (r: Option<Partition>)
        ensures
            old(self).remaining().len() > 0 ==> (r matches Some(p) && p@ == old(
                self).remaining()[0] && final(self).remaining() == old(
                self).remaining().drop_first()),
            old(self).remaining().len() == 0 ==> (r is None && final(self).remaining() == old(
                self).remaining()),
    {
        let n = self.table.nents();
        if self.pos < n {
            let r = self.table.partition(self.pos);
            self.pos = self.pos + 1;
            proof {
                assert(self.remaining() =~= old(self).remaining().drop_first());
            }
            r
        } else {
            None
        }
    }
}

} // verus!
