//! The order book: owns both side books and the shared sequencer, routes
//! incoming requests and returns results or errors.

use vstd::prelude::*;

use crate::book::{book_make, sweep_levels, Book, Side, TakeError};
use crate::order::{resting_order, OrderContainer, OrderRequest};
use crate::pricelevel::{views_of, PriceLevel};
use crate::sequencer::{OrderID, OrderSequencer};

verus! {

/// One instrument's order book: a bid book, an ask book, and the sequencer
/// that assigns every accepted request its id.
pub struct LimitOrderBook<S: OrderSequencer> {
    pub bids: Book,
    pub asks: Book,
    pub order_sequencer: S,
}

/// The successful outcome of placing a request: the id assigned to it, used
/// to correlate fills.
pub struct OrderResult {
    pub order_id: OrderID,
}

/// Why a request was refused. Every refusal is recoverable and returned to
/// the caller.
#[derive(Clone, Copy, Debug)]
pub enum PlaceOrderError {
    /// Reserved for a time-in-force validation not produced by any code path
    /// yet.
    TimeInForceError,
    /// Reserved for a marketable-limit-order rejection not produced by any
    /// code path yet.
    CrossedSpreadError,
    /// A market order's sweep failed one of its preconditions; the liquidity
    /// failure is surfaced to the caller rather than discarded.
    Liquidity(TakeError),
}

impl<S: OrderSequencer> LimitOrderBook<S> {
    /// The order-book invariant: both side books are well formed and guard
    /// the side they are meant for.
    pub open spec fn wf(self) -> bool {
        &&& self.bids.wf()
        &&& self.bids.side is Buy
        &&& self.asks.wf()
        &&& self.asks.side is Sell
    }

    pub fn new(order_sequencer: S) -> (r: LimitOrderBook<S>)
        ensures
            r.wf(),
            r.bids.levels@ == Seq::<PriceLevel>::empty(),
            r.asks.levels@ == Seq::<PriceLevel>::empty(),
            r.bids.volume == 0,
            r.asks.volume == 0,
            r.order_sequencer == order_sequencer,
    {
        LimitOrderBook {
            bids: Book::new(Side::Buy),
            asks: Book::new(Side::Sell),
            order_sequencer,
        }
    }

    /// The sole mutating entry point. Every request is first assigned a fresh
    /// id, whatever its outcome. A limit request joins the book of its own
    /// side; a market request sweeps the opposite side, and a failure of that
    /// sweep propagates to the caller.
    pub fn place_order(&mut self, order: OrderRequest) -> (r: Result<
        OrderResult,
        PlaceOrderError,
    >)
        requires
            old(self).wf(),
            old(self).order_sequencer.counter_spec() < u64::MAX,
            order matches OrderRequest::Limit(params) ==> params.quantity > 0 && match params.side {
                Side::Buy => old(self).bids.volume + params.quantity <= u64::MAX,
                Side::Sell => old(self).asks.volume + params.quantity <= u64::MAX,
            },
        ensures
            final(self).wf(),
            final(self).order_sequencer.counter_spec() == old(self).order_sequencer.counter_spec()
                + 1,
            (match order {
                OrderRequest::Limit(params) => {
                    &&& r matches Ok(res) && res.order_id == old(
                        self,
                    ).order_sequencer.counter_spec()
                    &&& match params.side {
                        Side::Buy => {
                            &&& views_of(final(self).bids.levels@) == book_make(
                                views_of(old(self).bids.levels@),
                                Side::Buy,
                                params.limit_price,
                                resting_order(
                                    params.quantity,
                                    old(self).order_sequencer.counter_spec(),
                                ),
                            )
                            &&& final(self).bids.volume == old(self).bids.volume + params.quantity
                            &&& final(self).asks == old(self).asks
                        },
                        Side::Sell => {
                            &&& views_of(final(self).asks.levels@) == book_make(
                                views_of(old(self).asks.levels@),
                                Side::Sell,
                                params.limit_price,
                                resting_order(
                                    params.quantity,
                                    old(self).order_sequencer.counter_spec(),
                                ),
                            )
                            &&& final(self).asks.volume == old(self).asks.volume + params.quantity
                            &&& final(self).bids == old(self).bids
                        },
                    }
                },
                OrderRequest::Market(params) => match params.side {
                    Side::Buy => {
                        &&& final(self).bids == old(self).bids
                        &&& (params.quantity != 0 && old(self).asks.levels@.len() > 0
                            && params.quantity <= old(self).asks.volume) ==> {
                            &&& r matches Ok(res) && res.order_id == old(
                                self,
                            ).order_sequencer.counter_spec()
                            &&& views_of(final(self).asks.levels@) == sweep_levels(
                                views_of(old(self).asks.levels@),
                                params.quantity as nat,
                            )
                            &&& final(self).asks.volume == old(self).asks.volume - params.quantity
                        }
                        &&& params.quantity == 0 ==> r == Err::<OrderResult, PlaceOrderError>(
                            PlaceOrderError::Liquidity(TakeError::ZeroQuantity),
                        )
                        &&& (params.quantity != 0 && old(self).asks.levels@.len() == 0) ==> r
                            == Err::<OrderResult, PlaceOrderError>(
                            PlaceOrderError::Liquidity(TakeError::EmptyBook),
                        )
                        &&& (params.quantity != 0 && old(self).asks.levels@.len() > 0
                            && params.quantity > old(self).asks.volume) ==> r == Err::<
                            OrderResult,
                            PlaceOrderError,
                        >(PlaceOrderError::Liquidity(TakeError::NotEnoughVolume))
                        &&& r is Err ==> final(self).asks == old(self).asks
                    },
                    Side::Sell => {
                        &&& final(self).asks == old(self).asks
                        &&& (params.quantity != 0 && old(self).bids.levels@.len() > 0
                            && params.quantity <= old(self).bids.volume) ==> {
                            &&& r matches Ok(res) && res.order_id == old(
                                self,
                            ).order_sequencer.counter_spec()
                            &&& views_of(final(self).bids.levels@) == sweep_levels(
                                views_of(old(self).bids.levels@),
                                params.quantity as nat,
                            )
                            &&& final(self).bids.volume == old(self).bids.volume - params.quantity
                        }
                        &&& params.quantity == 0 ==> r == Err::<OrderResult, PlaceOrderError>(
                            PlaceOrderError::Liquidity(TakeError::ZeroQuantity),
                        )
                        &&& (params.quantity != 0 && old(self).bids.levels@.len() == 0) ==> r
                            == Err::<OrderResult, PlaceOrderError>(
                            PlaceOrderError::Liquidity(TakeError::EmptyBook),
                        )
                        &&& (params.quantity != 0 && old(self).bids.levels@.len() > 0
                            && params.quantity > old(self).bids.volume) ==> r == Err::<
                            OrderResult,
                            PlaceOrderError,
                        >(PlaceOrderError::Liquidity(TakeError::NotEnoughVolume))
                        &&& r is Err ==> final(self).bids == old(self).bids
                    },
                },
            }),
    {
        let order_id = self.order_sequencer.next_order_id();

        match order {
            OrderRequest::Limit(params) => {
                let order_container = OrderContainer::new(params.quantity, order_id);

                match params.side {
                    Side::Buy => self.bids.make(params.limit_price, order_container),
                    Side::Sell => self.asks.make(params.limit_price, order_container),
                }

                Ok(OrderResult { order_id })
            },
            OrderRequest::Market(params) => {
                let order_container = OrderContainer::new(params.quantity, order_id);

                let take_result = match params.side {
                    Side::Buy => self.asks.take(order_container.size),
                    Side::Sell => self.bids.take(order_container.size),
                };

                match take_result {
                    Ok(_fill_events) => Ok(OrderResult { order_id }),
                    Err(e) => Err(PlaceOrderError::Liquidity(e)),
                }
            },
        }
    }
}

} // verus!
