use lob::book::TakeError;
use lob::lob::{LimitOrderBook, PlaceOrderError};
use lob::order::{LimitOrderParams, MarketOrderParams, OrderRequest};
use lob::book::Side;
use lob::sequencer::AtomicMonotonicSequencer;

#[test]
fn test_place_limit_orders_assigns_increasing_ids() {
    let mut book = LimitOrderBook::new(AtomicMonotonicSequencer::new());

    let first = book
        .place_order(OrderRequest::Limit(LimitOrderParams::new(10, Side::Buy, 100)))
        .unwrap();
    let second = book
        .place_order(OrderRequest::Limit(LimitOrderParams::new(11, Side::Sell, 50)))
        .unwrap();

    assert_eq!(first.order_id, 1);
    assert_eq!(second.order_id, 2);
    assert_eq!(book.bids.volume(), 100);
    assert_eq!(book.asks.volume(), 50);
}

#[test]
fn test_market_order_sweeps_the_opposite_side() {
    let mut book = LimitOrderBook::new(AtomicMonotonicSequencer::new());

    book.place_order(OrderRequest::Limit(LimitOrderParams::new(10, Side::Sell, 100)))
        .unwrap();
    book.place_order(OrderRequest::Limit(LimitOrderParams::new(12, Side::Sell, 100)))
        .unwrap();

    // A buy market order takes from the ask book, best (lowest) price first.
    let result = book
        .place_order(OrderRequest::Market(MarketOrderParams::new(Side::Buy, 150)))
        .unwrap();
    assert_eq!(result.order_id, 3);
    assert_eq!(book.asks.volume(), 50);
    assert_eq!(book.asks.top(), Some(12));
    assert_eq!(book.asks.depth(), 1);
    assert_eq!(book.bids.volume(), 0);
}

#[test]
fn test_market_order_liquidity_failure_propagates() {
    let mut book = LimitOrderBook::new(AtomicMonotonicSequencer::new());

    let empty = book.place_order(OrderRequest::Market(MarketOrderParams::new(Side::Sell, 10)));
    assert!(matches!(
        empty,
        Err(PlaceOrderError::Liquidity(TakeError::EmptyBook))
    ));

    book.place_order(OrderRequest::Limit(LimitOrderParams::new(10, Side::Buy, 100)))
        .unwrap();

    let zero = book.place_order(OrderRequest::Market(MarketOrderParams::new(Side::Sell, 0)));
    assert!(matches!(
        zero,
        Err(PlaceOrderError::Liquidity(TakeError::ZeroQuantity))
    ));

    let too_much = book.place_order(OrderRequest::Market(MarketOrderParams::new(Side::Sell, 101)));
    assert!(matches!(
        too_much,
        Err(PlaceOrderError::Liquidity(TakeError::NotEnoughVolume))
    ));

    // Refusals left the bid book untouched.
    assert_eq!(book.bids.volume(), 100);
    assert_eq!(book.bids.depth(), 1);
    assert_eq!(book.bids.top(), Some(10));
}

#[test]
fn test_ids_are_assigned_even_to_refused_requests() {
    let mut book = LimitOrderBook::new(AtomicMonotonicSequencer::new());

    // The sweep fails, but the id it consumed is never reused.
    let refused = book.place_order(OrderRequest::Market(MarketOrderParams::new(Side::Buy, 10)));
    assert!(refused.is_err());

    let accepted = book
        .place_order(OrderRequest::Limit(LimitOrderParams::new(10, Side::Buy, 100)))
        .unwrap();
    assert_eq!(accepted.order_id, 2);
}
