//! The reference side-table: a durable link from each resolved source
//! position to the entity it was determined to denote, populated during
//! resolution and queried independently by editor tooling.  References are
//! recorded even when the surrounding association is ultimately judged
//! defective: partial resolution is still useful information.

use vstd::prelude::*;
use crate::pos::Pos;

verus! {

/// One recorded reference: a source position and the entity id it denotes.
#[derive(Clone, Copy, Debug, PartialEq, Eq, Structural)]
pub struct RefEntry {
    pub pos: Pos,
    pub entity: usize,
}

/// The side-table of references, in the order they were recorded.
pub struct RefTable {
    pub entries: Vec<RefEntry>,
}

impl View for RefTable {
    type V = Seq<RefEntry>;

    open spec fn view(&self) -> Seq<RefEntry> {
        self.entries@
    }
}

/// The entity most recently recorded for `pos`, if any.
pub open spec fn spec_resolved_at(entries: Seq<RefEntry>, pos: Pos) -> Option<usize>
    decreases entries.len(),
{
    if entries.len() == 0 {
        None
    } else if entries.last().pos == pos {
        Some(entries.last().entity)
    } else {
        spec_resolved_at(entries.drop_last(), pos)
    }
}

impl RefTable {
    pub fn new() -> (t: RefTable)
        ensures
            t@ == Seq::<RefEntry>::empty(),
    {
        RefTable { entries: Vec::new() }
    }

    /// Record that the name written at `pos` denotes entity `entity`.
    pub fn record(&mut self, pos: Pos, entity: usize)
        ensures
            final(self)@ == old(self)@.push(RefEntry { pos, entity }),
    {
        self.entries.push(RefEntry { pos, entity });
    }

    /// The entity the name written at `pos` was last resolved to, if any.
    pub fn resolved_at(&self, pos: Pos) -> (r: Option<usize>)
        ensures
            r == spec_resolved_at(self@, pos),
    {
        let n = self.entries.len();
        let mut i: usize = n;
        proof {
            assert(self@.take(n as int) =~= self@);
        }
        while i > 0
            invariant
                n == self@.len(),
                0 <= i <= n,
                spec_resolved_at(self@, pos) == spec_resolved_at(self@.take(i as int), pos),
            decreases i,
        {
            proof {
                assert(self@.take(i as int).last() == self@[i - 1]);
                assert(self@.take(i as int).drop_last() =~= self@.take(i - 1));
            }
            if self.entries[i - 1].pos == pos {
                return Some(self.entries[i - 1].entity);
            }
            i = i - 1;
        }
        proof {
            assert(self@.take(0).len() == 0);
        }
        None
    }
}

} // verus!
