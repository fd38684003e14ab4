//! The engine boundary that a request-serving layer drives.

use vstd::prelude::*;

use crate::sequencer::OrderID;

verus! {

/// The outcome handed back to the serving layer: the id assigned to the
/// accepted request.
pub struct PlaceOrderResult {
    pub order_id: OrderID,
}

/// A trading engine as the serving layer sees it: one entry point that places
/// a request and reports the assigned id or a refusal.
pub trait TradingEngine: Send + Sync {
    fn place_order_request(&self) -> Result<PlaceOrderResult, ()>;
}

} // verus!
