//! A price level: a FIFO queue of resting orders sharing one price, with an
//! aggregate volume kept equal to the sum of the orders' remaining sizes.

use vstd::prelude::*;
use vstd::pervasive::VecAdditionalExecFns;

use crate::book::{FillEvent, FillEvents};
use crate::order::OrderContainer;

verus! {

/// The sum of the remaining sizes of a queue of resting orders.
pub open spec fn orders_volume(s: Seq<OrderContainer>) -> nat
    decreases s.len(),
{
    if s.len() == 0 {
        0
    } else {
        s[0].remaining_size as nat + orders_volume(s.drop_first())
    }
}

pub proof fn lemma_orders_volume_concat(a: Seq<OrderContainer>, b: Seq<OrderContainer>)
    ensures
        orders_volume(a + b) == orders_volume(a) + orders_volume(b),
    decreases a.len(),
{
    if a.len() == 0 {
        assert(a + b =~= b);
    } else {
        assert((a + b).drop_first() =~= a.drop_first() + b);
        lemma_orders_volume_concat(a.drop_first(), b);
    }
}

pub proof fn lemma_orders_volume_push(s: Seq<OrderContainer>, o: OrderContainer)
    ensures
        orders_volume(s.push(o)) == orders_volume(s) + o.remaining_size,
{
    assert(s.push(o) =~= s + seq![o]);
    lemma_orders_volume_concat(s, seq![o]);
    assert(seq![o].drop_first() =~= Seq::<OrderContainer>::empty());
    assert(orders_volume(Seq::<OrderContainer>::empty()) == 0);
    assert(orders_volume(seq![o]) == o.remaining_size as nat);
}

/// The fill events that consuming `qty` from the queue `s` emits: the queue
/// is walked oldest-first, each order filled as far as the still-unmet
/// quantity reaches, until the request is satisfied or the queue is
/// exhausted. A zero-remaining order at the front stops the scan (a
/// defensive case: a well-formed level never queues one).
pub open spec fn level_fills(s: Seq<OrderContainer>, qty: nat) -> Seq<FillEvent>
    decreases s.len(),
{
    if qty == 0 || s.len() == 0 {
        Seq::<FillEvent>::empty()
    } else {
        let r = s[0].remaining_size as nat;
        if r == 0 {
            Seq::<FillEvent>::empty()
        } else if qty < r {
            seq![FillEvent { order_id: s[0].order_id, size: qty as u64 }]
        } else {
            seq![FillEvent { order_id: s[0].order_id, size: r as u64 }]
                + level_fills(s.drop_first(), (qty - r) as nat)
        }
    }
}

/// The queue after consuming `qty` from `s`: fully filled orders are removed
/// from the front; a partially filled one stays at the front with its
/// remaining size reduced.
pub open spec fn level_after(s: Seq<OrderContainer>, qty: nat) -> Seq<OrderContainer>
    decreases s.len(),
{
    if qty == 0 || s.len() == 0 {
        s
    } else {
        let r = s[0].remaining_size as nat;
        if r == 0 {
            s
        } else if qty < r {
            s.update(0, OrderContainer { remaining_size: (r - qty) as u64, ..s[0] })
        } else {
            level_after(s.drop_first(), (qty - r) as nat)
        }
    }
}

/// Price-time priority of a level's queue: consuming the level emits its fill
/// events in arrival order — the k-th event fills the k-th oldest resting
/// order — and every filled order except possibly the last one is filled
/// completely. In particular, of two orders resting at the same price the one
/// accepted first is always filled before the one accepted second.
pub proof fn lemma_price_time_priority(s: Seq<OrderContainer>, qty: nat)
    requires
        forall|i: int| 0 <= i < s.len() ==> (#[trigger] s[i]).remaining_size > 0,
    ensures
        level_fills(s, qty).len() <= s.len(),
        forall|k: int|
            0 <= k < level_fills(s, qty).len() ==> (#[trigger] level_fills(s, qty)[k]).order_id
                == s[k].order_id,
        forall|k: int|
            0 <= k < level_fills(s, qty).len() - 1 ==> (#[trigger] level_fills(s, qty)[k]).size
                == s[k].remaining_size,
    decreases s.len(),
{
    if qty == 0 || s.len() == 0 {
    } else {
        let r = s[0].remaining_size as nat;
        if qty < r {
        } else {
            lemma_price_time_priority(s.drop_first(), (qty - r) as nat);
        }
    }
}

/// A price level: its price, the FIFO queue of resting orders (oldest first)
/// and the aggregate volume of their remaining sizes.
#[derive(Debug)]
pub struct PriceLevel {
    pub price: u64,
    pub volume: u64,
    pub orders: Vec<OrderContainer>,
}

/// A snapshot of one price level: its price and its order queue. The level's
/// volume is derived data (the sum of the queue's remaining sizes), so the
/// snapshot does not repeat it.
#[verifier::ext_equal]
pub struct LevelView {
    pub price: u64,
    pub orders: Seq<OrderContainer>,
}

impl View for PriceLevel {
    type V = LevelView;

    open spec fn view(&self) -> LevelView {
        LevelView { price: self.price, orders: self.orders@ }
    }
}

/// The snapshots of a sequence of price levels.
pub open spec fn views_of(levels: Seq<PriceLevel>) -> Seq<LevelView> {
    levels.map_values(|l: PriceLevel| l@)
}

impl PriceLevel {
    /// The level invariant: the aggregate volume equals the sum of the queued
    /// orders' remaining sizes, and no queued order is already fully filled
    /// (an order is removed from its level exactly when its remaining size
    /// reaches zero).
    pub open spec fn wf(self) -> bool {
        &&& self.volume as nat == orders_volume(self.orders@)
        &&& forall|i: int|
            0 <= i < self.orders@.len() ==> (#[trigger] self.orders@[i]).wf()
                && self.orders@[i].remaining_size > 0
    }

    pub fn new(price: u64, volume: u64) -> (r: PriceLevel)
        ensures
            r.price == price,
            r.volume == volume,
            r.orders@ == Seq::<OrderContainer>::empty(),
            volume == 0 ==> r.wf(),
    {
        PriceLevel { price, volume, orders: Vec::with_capacity(128) }
    }

    /// Accept a resting order: append it to the back of the queue (preserving
    /// arrival order) and add its remaining size to the level's volume.
    pub fn make(&mut self, order: OrderContainer)
        requires
            old(self).wf(),
            order.wf(),
            order.remaining_size > 0,
            old(self).volume + order.remaining_size <= u64::MAX,
        ensures
            final(self).wf(),
            final(self).price == old(self).price,
            final(self).orders@ == old(self).orders@.push(order),
            final(self).volume == old(self).volume + order.remaining_size,
    {
        proof {
            lemma_orders_volume_push(self.orders@, order);
        }
        self.volume = self.volume + order.remaining_size;
        self.orders.push(order);
    }

    /// Consume up to `qty` from the level, oldest order first. Returns the
    /// fill events in time-priority order and the part of `qty` the level
    /// could not satisfy; fully filled orders are removed from the queue.
    pub fn take(&mut self, qty: u64) -> (r: (FillEvents, u64))
        requires
            old(self).wf(),
        ensures
            final(self).wf(),
            final(self).price == old(self).price,
            r.0@ == level_fills(old(self).orders@, qty as nat),
            final(self).orders@ == level_after(old(self).orders@, qty as nat),
            r.1 == if qty >= old(self).volume {
                qty - old(self).volume
            } else {
                0
            },
            final(self).volume == old(self).volume - (qty - r.1),
    {
        let mut fill_events = FillEvents::new(self.orders.len());
        let mut remaining_qty = qty;
        let ghost orig = self.orders@;
        let ghost orig_volume = self.volume;

        while remaining_qty > 0 && self.orders.len() > 0
            invariant
                self.wf(),
                self.price == old(self).price,
                remaining_qty <= qty,
                level_fills(orig, qty as nat) == fill_events@ + level_fills(
                    self.orders@,
                    remaining_qty as nat,
                ),
                level_after(orig, qty as nat) == level_after(self.orders@, remaining_qty as nat),
                self.volume == orig_volume - (qty - remaining_qty),
                qty - remaining_qty <= orig_volume,
            decreases remaining_qty,
        {
            let ghost cur = self.orders@;
            let ghost evs0 = fill_events@;
            let ghost rq0 = remaining_qty as nat;
            let mut order = self.orders[0];
            let (qty_left_after_taking, order_remaining_size, taken) = order.take_qty(
                remaining_qty,
            );

            proof {
                assert(orders_volume(cur) == cur[0].remaining_size as nat + orders_volume(
                    cur.drop_first(),
                ));
            }

            fill_events.push(FillEvent::new(order.order_id, taken));
            self.volume = self.volume - taken;
            remaining_qty = qty_left_after_taking;

            if order_remaining_size == 0 {
                self.orders.remove(0);
                proof {
                    let ev = FillEvent { order_id: cur[0].order_id, size: taken };
                    assert(cur.remove(0) =~= cur.drop_first());
                    assert(level_fills(cur, rq0) == seq![ev] + level_fills(
                        cur.drop_first(),
                        remaining_qty as nat,
                    ));
                    assert(evs0 + (seq![ev] + level_fills(cur.drop_first(), remaining_qty as nat))
                        =~= evs0.push(ev) + level_fills(cur.drop_first(), remaining_qty as nat));
                    assert(level_after(cur, rq0) == level_after(
                        cur.drop_first(),
                        remaining_qty as nat,
                    ));
                }
            } else {
                self.orders.set(0, order);
                proof {
                    let ev = FillEvent { order_id: cur[0].order_id, size: taken };
                    let updated = cur.update(
                        0,
                        OrderContainer { remaining_size: order_remaining_size, ..cur[0] },
                    );
                    assert(order == OrderContainer {
                        remaining_size: order_remaining_size,
                        ..cur[0]
                    });
                    assert(self.orders@ =~= updated);
                    assert(updated.drop_first() =~= cur.drop_first());
                    assert(orders_volume(updated) == order_remaining_size as nat + orders_volume(
                        cur.drop_first(),
                    ));
                    assert(level_fills(cur, rq0) == seq![ev]);
                    assert(evs0 + seq![ev] =~= evs0.push(ev));
                    assert(level_after(cur, rq0) == updated);
                    assert(level_fills(updated, 0) == Seq::<FillEvent>::empty());
                    assert(evs0.push(ev) + Seq::<FillEvent>::empty() =~= evs0.push(ev));
                }
            }
        }

        proof {
            if remaining_qty > 0 {
                assert(self.orders@.len() == 0);
                assert(orders_volume(self.orders@) == 0);
            }
            assert(fill_events@ + Seq::<FillEvent>::empty() =~= fill_events@);
        }
        (fill_events, remaining_qty)
    }

    pub fn num_orders_in_queue(&self) -> (r: usize)
        ensures
            r == self.orders@.len(),
    {
        self.orders.len()
    }
}

} // verus!
