//! Order requests and the resting-order record that a price level queues.

use vstd::prelude::*;

use crate::book::Side;
use crate::sequencer::OrderID;

verus! {

/// A resting/maker intent: joins the book of its own side at `limit_price`.
pub struct LimitOrderParams {
    pub limit_price: u64,
    pub side: Side,
    pub quantity: u64,
}

impl LimitOrderParams {
    pub fn new(limit_price: u64, side: Side, quantity: u64) -> (r: LimitOrderParams)
        ensures
            r.limit_price == limit_price,
            r.side == side,
            r.quantity == quantity,
    {
        LimitOrderParams { limit_price, side, quantity }
    }
}

/// An aggressive/taker intent: sweeps the opposite side, with no price limit.
pub struct MarketOrderParams {
    pub side: Side,
    pub quantity: u64,
}

impl MarketOrderParams {
    pub fn new(side: Side, quantity: u64) -> (r: MarketOrderParams)
        ensures
            r.side == side,
            r.quantity == quantity,
    {
        MarketOrderParams { side, quantity }
    }
}

/// A transient request routed by the order book.
pub enum OrderRequest {
    Limit(LimitOrderParams),
    Market(MarketOrderParams),
}

/// A resting order: tracks its original and remaining size. The remaining
/// size never exceeds the original one and only decreases, by fill
/// consumption.
#[derive(Clone, Copy, Debug)]
pub struct OrderContainer {
    pub size: u64,
    pub order_id: OrderID,
    pub remaining_size: u64,
}

/// A freshly accepted resting order of size `quantity` under id `order_id`:
/// nothing of it has been filled yet.
pub open spec fn resting_order(quantity: u64, order_id: OrderID) -> OrderContainer {
    OrderContainer { size: quantity, order_id, remaining_size: quantity }
}

impl OrderContainer {
    /// The resting-order invariant: what remains is at most the original
    /// size.
    pub open spec fn wf(self) -> bool {
        self.remaining_size <= self.size
    }

    pub fn new(size: u64, order_id: OrderID) -> (r: OrderContainer)
        ensures
            r == (OrderContainer { size, order_id, remaining_size: size }),
            r.wf(),
    {
        OrderContainer { size, order_id, remaining_size: size }
    }

    /// The fill-matching rule for a single resting order. Returns
    /// `(unmet, new_remaining, filled)`: the part of `qty` this order could
    /// not satisfy, the order's remaining size afterwards, and the quantity
    /// actually filled against it.
    pub fn take_qty(&mut self, qty: u64) -> (r: (u64, u64, u64))
        ensures
            final(self).size == old(self).size,
            final(self).order_id == old(self).order_id,
            final(self).remaining_size <= old(self).remaining_size,
            old(self).wf() ==> final(self).wf(),
            r.1 == final(self).remaining_size,
            old(self).remaining_size == 0 ==> r == (qty, 0u64, 0u64),
            old(self).remaining_size > 0 && qty >= old(self).remaining_size ==> {
                &&& r.0 == qty - old(self).remaining_size
                &&& r.1 == 0
                &&& r.2 == old(self).remaining_size
            },
            old(self).remaining_size > 0 && qty < old(self).remaining_size ==> {
                &&& r.0 == 0
                &&& r.1 == old(self).remaining_size - qty
                &&& r.2 == qty
            },
    {
        if self.remaining_size == 0 {
            return (qty, 0, 0);
        }

        if qty == self.remaining_size {
            self.remaining_size = 0;
            (0, 0, qty)
        } else if qty > self.remaining_size {
            let left_after_taking = qty - self.remaining_size;
            let taken = self.remaining_size;
            self.remaining_size = 0;
            (left_after_taking, 0, taken)
        } else {
            self.remaining_size = self.remaining_size - qty;
            (0, self.remaining_size, qty)
        }
    }
}

} // verus!
