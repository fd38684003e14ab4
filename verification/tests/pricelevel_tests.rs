use lob::book::{Book, Side};
use lob::order::OrderContainer;
use lob::pricelevel::PriceLevel;
use lob::sequencer::{AtomicMonotonicSequencer, OrderSequencer};

#[test]
fn test_make_new_price_level() {
    let mut pl = PriceLevel::new(10, 0);
    let order1 = OrderContainer::new(100, 1);
    let order2 = OrderContainer::new(201, 2);

    pl.make(order1);
    assert_eq!(pl.volume, 100);
    assert_eq!(pl.price, 10);
    assert_eq!(pl.num_orders_in_queue(), 1);

    pl.make(order2);
    assert_eq!(pl.volume, 301);
    assert_eq!(pl.price, 10);
    assert_eq!(pl.num_orders_in_queue(), 2);
}

#[test]
fn test_multi_take_from_existing_price_level() {
    let mut pl = PriceLevel::new(10, 0);
    let order1 = OrderContainer::new(100, 1);
    let order2 = OrderContainer::new(200, 2);

    pl.make(order1);
    pl.make(order2);
    assert_eq!(pl.volume, 300);

    let (fill_events, left_after_taking) = pl.take(50);
    assert_eq!(fill_events.len(), 1);
    assert_eq!(left_after_taking, 0);
    assert_eq!(pl.num_orders_in_queue(), 2);
    assert_eq!(pl.volume, 250);

    pl.take(50);
    assert_eq!(fill_events.len(), 1);
    assert_eq!(left_after_taking, 0);
    assert_eq!(pl.num_orders_in_queue(), 1);
    assert_eq!(pl.volume, 200);

    let (fill_events, left_after_taking) = pl.take(250);
    assert_eq!(fill_events.len(), 1);
    assert_eq!(left_after_taking, 50);
    assert_eq!(pl.num_orders_in_queue(), 0);
    assert_eq!(pl.volume, 0);
}

#[test]
fn test_take_price_level_with_too_small_liquidity() {
    let mut pl = PriceLevel::new(10, 0);
    let order = OrderContainer::new(10, 1);
    pl.make(order);
    assert_eq!(pl.volume, 10);
    assert_eq!(pl.num_orders_in_queue(), 1);

    let (fill_events, left_after_taking) = pl.take(11);
    assert_eq!(pl.volume, 0);
    assert_eq!(left_after_taking, 1);
    assert_eq!(fill_events.len(), 1);
    assert_eq!(pl.num_orders_in_queue(), 0);
}

#[test]
fn pricelevel_test_price_levels_buy_make() {
    let mut pls = Book::new(Side::Buy);
    let mut sequencer = AtomicMonotonicSequencer::new();

    pls.make(10, OrderContainer::new(100, sequencer.next_order_id()));
    pls.make(11, OrderContainer::new(100, sequencer.next_order_id()));
    pls.make(15, OrderContainer::new(100, sequencer.next_order_id()));
    pls.make(12, OrderContainer::new(100, sequencer.next_order_id()));
    pls.make(12, OrderContainer::new(100, sequencer.next_order_id()));

    assert_eq!(pls.depth(), 4);
    assert_eq!(pls.volume(), 500);
    assert_eq!(pls.top(), Some(15));
}

#[test]
fn pricelevel_test_price_levels_buy_take() {
    let mut pls = Book::new(Side::Buy);
    let mut sequencer = AtomicMonotonicSequencer::new();

    pls.make(10, OrderContainer::new(100, sequencer.next_order_id()));
    pls.make(11, OrderContainer::new(100, sequencer.next_order_id()));
    pls.make(15, OrderContainer::new(100, sequencer.next_order_id()));
    pls.make(12, OrderContainer::new(100, sequencer.next_order_id()));
    pls.make(12, OrderContainer::new(100, sequencer.next_order_id()));

    assert_eq!(pls.top(), Some(15));
    assert_eq!(pls.depth(), 4);
    assert_eq!(pls.volume(), 500);

    let fill_events = pls.take(250).unwrap();

    assert_eq!(fill_events.len(), 3);
    assert_eq!(pls.volume(), 250);
    assert_eq!(pls.top(), Some(12));
    assert_eq!(pls.depth(), 3);
}

#[test]
fn pricelevel_test_price_levels_sell_make() {
    let mut pls = Book::new(Side::Sell);
    let mut sequencer = AtomicMonotonicSequencer::new();

    pls.make(10, OrderContainer::new(100, sequencer.next_order_id()));
    pls.make(11, OrderContainer::new(100, sequencer.next_order_id()));
    pls.make(15, OrderContainer::new(100, sequencer.next_order_id()));
    pls.make(12, OrderContainer::new(100, sequencer.next_order_id()));
    pls.make(12, OrderContainer::new(100, sequencer.next_order_id()));

    assert_eq!(pls.depth(), 4);
    assert_eq!(pls.volume(), 500);
    assert_eq!(pls.top(), Some(10));
}

#[test]
fn test_price_time_priority_within_level() {
    // Two orders rest at the same price; the one accepted first is filled
    // first, and the second is touched only once the first is exhausted.
    let mut pl = PriceLevel::new(10, 0);
    pl.make(OrderContainer::new(100, 1));
    pl.make(OrderContainer::new(100, 2));

    let (fill_events, left) = pl.take(130);
    assert_eq!(left, 0);
    assert_eq!(fill_events.len(), 2);
    assert_eq!(fill_events.0[0].order_id, 1);
    assert_eq!(fill_events.0[0].size, 100);
    assert_eq!(fill_events.0[1].order_id, 2);
    assert_eq!(fill_events.0[1].size, 30);

    let (fill_events, left) = pl.take(70);
    assert_eq!(left, 0);
    assert_eq!(fill_events.len(), 1);
    assert_eq!(fill_events.0[0].order_id, 2);
    assert_eq!(fill_events.0[0].size, 70);
    assert_eq!(pl.num_orders_in_queue(), 0);
}
