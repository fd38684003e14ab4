//! Issues globally unique, monotonically increasing order identifiers.

use vstd::prelude::*;

verus! {

/// An order identifier: unique, strictly increasing in issuance order, never
/// reused; it carries no other semantics and is used purely as a correlation
/// key for fills.
pub type OrderID = u64;

/// A source of order identifiers. Each call returns the current counter value
/// and advances it, so the ids a caller observes are strictly increasing.
pub trait OrderSequencer {
    /// The value the next issued identifier will have.
    spec fn counter_spec(&self) -> u64;

    /// Issue the next identifier. Overflow of the counter's range is out of
    /// scope: callers must not exhaust it.
    fn next_order_id(&mut self) -> (id: OrderID)
        requires
            old(self).counter_spec() < u64::MAX,
        ensures
            id == old(self).counter_spec(),
            final(self).counter_spec() == old(self).counter_spec() + 1,
    ;
}

/// The default sequencer: a single counter, owned by the order book that the
/// sequencer is injected into, counting from 1.
pub struct AtomicMonotonicSequencer {
    counter: u64,
}

impl AtomicMonotonicSequencer {
    pub fn new() -> (r: AtomicMonotonicSequencer)
        ensures
            r.counter_spec() == 1,
    {
        AtomicMonotonicSequencer {
            counter: 1,  // count from 1.
        }
    }
}

impl OrderSequencer for AtomicMonotonicSequencer {
    closed spec fn counter_spec(&self) -> u64 {
        self.counter
    }

    fn next_order_id(&mut self) -> (id: OrderID) {
        let id = self.counter;
        self.counter = self.counter + 1;
        id
    }
}

} // verus!
