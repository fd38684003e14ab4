//! The side book: an ordered collection of price levels for one side of one
//! instrument, together with the fill-event types and the sweep error
//! taxonomy.

use vstd::prelude::*;

use crate::order::OrderContainer;
use crate::pricelevel::{
    level_after, level_fills, orders_volume, views_of, LevelView, PriceLevel,
};
use crate::sequencer::OrderID;

verus! {

/// Which side of the market a book or an order belongs to. The side also
/// determines price priority: for buys a higher price is better, for sells a
/// lower one.
#[derive(Clone, Copy, Debug)]
pub enum Side {
    Buy,
    Sell,
}

/// True when, on side `side`, price `a` has strictly better priority than
/// price `b`.
pub open spec fn price_before(side: Side, a: u64, b: u64) -> bool {
    match side {
        Side::Buy => a > b,
        Side::Sell => a < b,
    }
}

impl Side {
    /// The price-priority comparison used to keep a side book's levels
    /// sorted: best price first.
    pub fn price_levels_comparator(&self, a: u64, b: u64) -> (r: bool)
        ensures
            r == price_before(*self, a, b),
    {
        match self {
            Side::Buy => a > b,
            Side::Sell => a < b,
        }
    }
}

/// A record that the resting order `order_id` had its remaining size reduced
/// by `size` during a sweep.
#[derive(Clone, Copy, Debug, PartialEq, Eq, Structural)]
pub struct FillEvent {
    pub order_id: OrderID,
    pub size: u64,
}

impl FillEvent {
    pub fn new(order_id: OrderID, size: u64) -> (r: FillEvent)
        ensures
            r == (FillEvent { order_id, size }),
    {
        FillEvent { order_id, size }
    }
}

/// The fill events produced by one sweep, in best-price-first then
/// time-priority order.
#[derive(Debug)]
pub struct FillEvents(pub Vec<FillEvent>);

impl View for FillEvents {
    type V = Seq<FillEvent>;

    open spec fn view(&self) -> Seq<FillEvent> {
        self.0@
    }
}

impl FillEvents {
    pub fn new(capacity: usize) -> (r: FillEvents)
        ensures
            r@ == Seq::<FillEvent>::empty(),
    {
        FillEvents(Vec::with_capacity(capacity))
    }

    pub fn len(&self) -> (r: usize)
        ensures
            r == self@.len(),
    {
        self.0.len()
    }

    pub fn push(&mut self, fill_event: FillEvent)
        ensures
            final(self)@ == old(self)@.push(fill_event),
    {
        self.0.push(fill_event);
    }
}

/// The sum of the volumes of a sequence of price levels.
pub open spec fn levels_volume(s: Seq<PriceLevel>) -> nat
    decreases s.len(),
{
    if s.len() == 0 {
        0
    } else {
        s[0].volume as nat + levels_volume(s.drop_first())
    }
}

/// The sum, over a sequence of price levels, of the remaining sizes of all
/// resting orders queued in them.
pub open spec fn levels_orders_volume(s: Seq<PriceLevel>) -> nat
    decreases s.len(),
{
    if s.len() == 0 {
        0
    } else {
        orders_volume(s[0].orders@) + levels_orders_volume(s.drop_first())
    }
}

pub proof fn lemma_levels_volume_concat(a: Seq<PriceLevel>, b: Seq<PriceLevel>)
    ensures
        levels_volume(a + b) == levels_volume(a) + levels_volume(b),
    decreases a.len(),
{
    if a.len() == 0 {
        assert(a + b =~= b);
    } else {
        assert((a + b).drop_first() =~= a.drop_first() + b);
        lemma_levels_volume_concat(a.drop_first(), b);
    }
}

/// Decompose the volume sum of a level sequence around one index.
pub proof fn lemma_levels_volume_split(s: Seq<PriceLevel>, i: int)
    requires
        0 <= i < s.len(),
    ensures
        levels_volume(s) == levels_volume(s.take(i)) + s[i].volume + levels_volume(
            s.skip(i + 1),
        ),
{
    assert(s =~= (s.take(i) + seq![s[i]]) + s.skip(i + 1));
    lemma_levels_volume_concat(s.take(i) + seq![s[i]], s.skip(i + 1));
    lemma_levels_volume_concat(s.take(i), seq![s[i]]);
    assert(seq![s[i]].drop_first() =~= Seq::<PriceLevel>::empty());
    assert(levels_volume(Seq::<PriceLevel>::empty()) == 0);
    assert(levels_volume(seq![s[i]]) == s[i].volume as nat);
}

/// The result of accepting a resting order at `price` into the level
/// sequence `s`, assumed sorted best-price-first for `side`: the order joins
/// the level at `price` if one exists, else a new level holding just this
/// order is created in sorted position.
pub open spec fn book_make(
    s: Seq<LevelView>,
    side: Side,
    price: u64,
    order: OrderContainer,
) -> Seq<LevelView>
    decreases s.len(),
{
    if s.len() == 0 {
        seq![LevelView { price, orders: seq![order] }]
    } else if s[0].price == price {
        seq![LevelView { price, orders: s[0].orders.push(order) }] + s.drop_first()
    } else if price_before(side, price, s[0].price) {
        seq![LevelView { price, orders: seq![order] }] + s
    } else {
        seq![s[0]] + book_make(s.drop_first(), side, price, order)
    }
}

/// Pin down `book_make` once the insertion point is known: `i` is the first
/// index whose level does not have strictly better price priority than the
/// incoming `price` (or the length if every level does).
pub proof fn lemma_book_make_at(
    s: Seq<LevelView>,
    side: Side,
    price: u64,
    order: OrderContainer,
    i: int,
)
    requires
        0 <= i <= s.len(),
        forall|k: int| 0 <= k < i ==> price_before(side, (#[trigger] s[k]).price, price),
        i < s.len() ==> !price_before(side, s[i].price, price),
    ensures
        i < s.len() && s[i].price == price ==> book_make(s, side, price, order) == s.take(i)
            + seq![LevelView { price, orders: s[i].orders.push(order) }] + s.skip(i + 1),
        !(i < s.len() && s[i].price == price) ==> book_make(s, side, price, order) == s.take(i)
            + seq![LevelView { price, orders: seq![order] }] + s.skip(i),
    decreases i,
{
    if i == 0 {
        if s.len() == 0 {
            assert(s.take(0) + seq![LevelView { price, orders: seq![order] }] + s.skip(0)
                =~= seq![LevelView { price, orders: seq![order] }]);
        } else if s[0].price == price {
            assert(s.take(0) + seq![LevelView { price, orders: s[0].orders.push(order) }]
                + s.skip(1) =~= seq![LevelView { price, orders: s[0].orders.push(order) }]
                + s.drop_first());
        } else {
            assert(price_before(side, price, s[0].price));
            assert(s.take(0) + seq![LevelView { price, orders: seq![order] }] + s.skip(0)
                =~= seq![LevelView { price, orders: seq![order] }] + s);
        }
    } else {
        assert(price_before(side, s[0].price, price));
        assert(s[0].price != price);
        assert(!price_before(side, price, s[0].price));
        let d = s.drop_first();
        assert(forall|k: int| 0 <= k < i - 1 ==> price_before(side, (#[trigger] d[k]).price, price));
        lemma_book_make_at(d, side, price, order, i - 1);
        assert(book_make(s, side, price, order) == seq![s[0]] + book_make(d, side, price, order));
        if i < s.len() && s[i].price == price {
            assert(seq![s[0]] + (d.take(i - 1) + seq![
                LevelView { price, orders: d[i - 1].orders.push(order) },
            ] + d.skip(i)) =~= s.take(i) + seq![
                LevelView { price, orders: s[i].orders.push(order) },
            ] + s.skip(i + 1));
        } else {
            assert(seq![s[0]] + (d.take(i - 1) + seq![LevelView { price, orders: seq![order] }]
                + d.skip(i - 1)) =~= s.take(i) + seq![LevelView { price, orders: seq![order] }]
                + s.skip(i));
        }
    }
}

/// The fill events a sweep of `qty` emits from the level sequence `s`
/// (best-price-first): each level is consumed in time-priority order and the
/// unmet remainder carries to the next level.
pub open spec fn sweep_fills(s: Seq<LevelView>, qty: nat) -> Seq<FillEvent>
    decreases s.len(),
{
    if qty == 0 || s.len() == 0 {
        Seq::<FillEvent>::empty()
    } else {
        let vol0 = orders_volume(s[0].orders);
        let taken0 = if qty < vol0 {
            qty
        } else {
            vol0
        };
        level_fills(s[0].orders, qty) + sweep_fills(s.drop_first(), (qty - taken0) as nat)
    }
}

/// The level sequence after a sweep of `qty`: fully drained levels are
/// removed, a partially consumed level keeps its place with its queue
/// shortened, and the relative order of survivors is preserved.
pub open spec fn sweep_levels(s: Seq<LevelView>, qty: nat) -> Seq<LevelView>
    decreases s.len(),
{
    if qty == 0 || s.len() == 0 {
        s
    } else {
        let vol0 = orders_volume(s[0].orders);
        if qty < vol0 {
            seq![LevelView { price: s[0].price, orders: level_after(s[0].orders, qty) }]
                + s.drop_first()
        } else {
            sweep_levels(s.drop_first(), (qty - vol0) as nat)
        }
    }
}

/// A side book: the price levels of one side, best price first.
pub struct Book {
    pub levels: Vec<PriceLevel>,
    pub side: Side,
    pub volume: u64,
}

impl Book {
    /// The shape invariant on the level sequence: every level is well formed
    /// and non-empty (a level is destroyed when its volume reaches zero), and
    /// the levels are strictly sorted by the side's price priority, so prices
    /// are unique and index 0 is the best price.
    pub open spec fn levels_ok(self) -> bool {
        &&& forall|i: int|
            0 <= i < self.levels@.len() ==> (#[trigger] self.levels@[i]).wf()
                && self.levels@[i].volume > 0
        &&& forall|i: int, j: int|
            0 <= i < j < self.levels@.len() ==> price_before(
                self.side,
                #[trigger] self.levels@[i].price,
                #[trigger] self.levels@[j].price,
            )
    }

    /// The side-book invariant: the level sequence is well shaped and the
    /// aggregate volume equals the sum of the level volumes.
    pub open spec fn wf(self) -> bool {
        &&& self.levels_ok()
        &&& self.volume as nat == levels_volume(self.levels@)
    }

    pub fn new(side: Side) -> (r: Book)
        ensures
            r.wf(),
            r.side == side,
            r.levels@ == Seq::<PriceLevel>::empty(),
            r.volume == 0,
    {
        Book { levels: Vec::with_capacity(2048), side, volume: 0 }
    }

    /// Accept a resting order at `price`: the order joins the level at that
    /// price (a new level is created in sorted position if none exists) and
    /// the aggregate volume grows by the order's remaining size.
    #[verifier::rlimit(50)]
    pub fn make(&mut self, price: u64, order: OrderContainer)
        requires
            old(self).wf(),
            order.wf(),
            order.remaining_size > 0,
            old(self).volume + order.remaining_size <= u64::MAX,
        ensures
            final(self).wf(),
            final(self).side == old(self).side,
            views_of(final(self).levels@) == book_make(
                views_of(old(self).levels@),
                old(self).side,
                price,
                order,
            ),
            final(self).volume == old(self).volume + order.remaining_size,
    {
        let ghost s0 = self.levels@;
        let ghost vs0 = views_of(s0);

        let mut i: usize = 0;
        while i < self.levels.len() && self.side.price_levels_comparator(
            self.levels[i].price,
            price,
        )
            invariant
                i <= self.levels@.len(),
                self.levels@ == s0,
                self.side == old(self).side,
                forall|k: int| 0 <= k < i ==> price_before(self.side, (#[trigger] s0[k]).price, price),
            decreases self.levels@.len() - i,
        {
            i = i + 1;
        }

        proof {
            lemma_book_make_at(vs0, self.side, price, order, i as int);
        }

        let found = i < self.levels.len() && self.levels[i].price == price;
        if found {
            let mut price_level = self.levels.remove(i);
            proof {
                lemma_levels_volume_split(s0, i as int);
            }
            price_level.make(order);
            self.levels.insert(i, price_level);
            proof {
                assert(self.levels@ =~= s0.update(i as int, price_level));
                assert(views_of(self.levels@) =~= vs0.take(i as int) + seq![
                    LevelView { price, orders: vs0[i as int].orders.push(order) },
                ] + vs0.skip(i as int + 1));
                lemma_levels_volume_split(self.levels@, i as int);
                assert(self.levels@.take(i as int) =~= s0.take(i as int));
                assert(self.levels@.skip(i as int + 1) =~= s0.skip(i as int + 1));
                assert(levels_volume(self.levels@) == levels_volume(s0)
                    + order.remaining_size as nat);
                assert forall|a: int, b: int| 0 <= a < b < self.levels@.len() implies price_before(
                    self.side,
                    #[trigger] self.levels@[a].price,
                    #[trigger] self.levels@[b].price,
                ) by {
                    assert(self.levels@[a].price == s0[a].price);
                    assert(self.levels@[b].price == s0[b].price);
                }
            }
        } else {
            let mut price_level = PriceLevel::new(price, 0);
            price_level.make(order);
            self.levels.insert(i, price_level);
            proof {
                assert(price_level.orders@ =~= seq![order]);
                assert(price_level@ =~= (LevelView { price, orders: seq![order] }));
                assert(views_of(self.levels@) =~= vs0.take(i as int) + seq![
                    LevelView { price, orders: seq![order] },
                ] + vs0.skip(i as int));
                lemma_levels_volume_split(self.levels@, i as int);
                assert(self.levels@.take(i as int) =~= s0.take(i as int));
                assert(self.levels@.skip(i as int + 1) =~= s0.skip(i as int));
                assert(s0 =~= s0.take(i as int) + s0.skip(i as int));
                lemma_levels_volume_concat(s0.take(i as int), s0.skip(i as int));
                assert(levels_volume(self.levels@) == levels_volume(s0)
                    + order.remaining_size as nat);
                assert forall|a: int, b: int| 0 <= a < b < self.levels@.len() implies price_before(
                    self.side,
                    #[trigger] self.levels@[a].price,
                    #[trigger] self.levels@[b].price,
                ) by {
                    let ii = i as int;
                    if a < ii && b < ii {
                        assert(self.levels@[a] == s0[a]);
                        assert(self.levels@[b] == s0[b]);
                    } else if a < ii && b == ii {
                        assert(self.levels@[a] == s0[a]);
                    } else if a < ii && b > ii {
                        assert(self.levels@[a] == s0[a]);
                        assert(self.levels@[b] == s0[b - 1]);
                    } else if a == ii && b > ii {
                        assert(self.levels@[b] == s0[b - 1]);
                        assert(ii < s0.len() ==> !price_before(self.side, s0[ii].price, price));
                        if b - 1 > ii {
                            assert(price_before(self.side, s0[ii].price, s0[b - 1].price));
                        }
                    } else {
                        assert(a > ii && b > ii);
                        assert(self.levels@[a] == s0[a - 1]);
                        assert(self.levels@[b] == s0[b - 1]);
                    }
                }
            }
        }
        self.volume = self.volume + order.remaining_size;
    }

    /// Sweep: consume `qty` of resting liquidity, walking the levels from
    /// best to worst price, each level in time-priority order. The
    /// precondition checks are all-or-nothing: on any refusal the book is
    /// left completely unchanged. On success the request is filled in full.
    #[verifier::rlimit(50)]
    pub fn take(&mut self, qty: u64) -> (r: Result<FillEvents, TakeError>)
        requires
            old(self).wf(),
        ensures
            final(self).wf(),
            final(self).side == old(self).side,
            qty == 0 ==> r == Err::<FillEvents, TakeError>(TakeError::ZeroQuantity),
            qty != 0 && old(self).levels@.len() == 0 ==> r == Err::<FillEvents, TakeError>(
                TakeError::EmptyBook,
            ),
            qty != 0 && old(self).levels@.len() > 0 && qty > old(self).volume ==> r == Err::<
                FillEvents,
                TakeError,
            >(TakeError::NotEnoughVolume),
            r is Err ==> *final(self) == *old(self),
            r is Ok <==> (qty != 0 && old(self).levels@.len() > 0 && qty <= old(self).volume),
            r matches Ok(fills) ==> {
                &&& fills@ == sweep_fills(views_of(old(self).levels@), qty as nat)
                &&& views_of(final(self).levels@) == sweep_levels(
                    views_of(old(self).levels@),
                    qty as nat,
                )
                &&& final(self).volume == old(self).volume - qty
            },
    {
        match self.validate_take(qty) {
            Err(e) => {
                return Err(e);
            },
            Ok(()) => {},
        }

        let ghost s0 = self.levels@;
        let ghost vs0 = views_of(s0);

        let mut total_fill_events = FillEvents::new(32);
        let mut remaining_qty = qty;

        while remaining_qty > 0
            invariant
                self.levels_ok(),
                self.side == old(self).side,
                self.volume == old(self).volume,
                remaining_qty <= qty,
                qty <= levels_volume(s0),
                levels_volume(self.levels@) == levels_volume(s0) - (qty - remaining_qty),
                sweep_fills(vs0, qty as nat) == total_fill_events@ + sweep_fills(
                    views_of(self.levels@),
                    remaining_qty as nat,
                ),
                sweep_levels(vs0, qty as nat) == sweep_levels(
                    views_of(self.levels@),
                    remaining_qty as nat,
                ),
            decreases remaining_qty,
        {
            proof {
                if self.levels@.len() == 0 {
                    assert(levels_volume(self.levels@) == 0);
                    assert(false);
                }
            }
            let ghost cur = self.levels@;
            let ghost vcur = views_of(cur);
            let ghost evs_before = total_fill_events@;
            let ghost rq0 = remaining_qty as nat;

            let mut price_level = self.levels.remove(0);
            proof {
                assert(cur.remove(0) =~= cur.drop_first());
                assert(views_of(cur.drop_first()) =~= vcur.drop_first());
                assert(vcur[0].orders == price_level.orders@);
                assert(orders_volume(vcur[0].orders) == price_level.volume as nat);
            }
            let ghost vol0 = price_level.volume as nat;

            let (fill_events, remaining_qty_after_take) = price_level.take(remaining_qty);
            let mut fill_events = fill_events;
            total_fill_events.0.append(&mut fill_events.0);
            remaining_qty = remaining_qty_after_take;

            proof {
                assert(total_fill_events@ =~= evs_before + level_fills(vcur[0].orders, rq0));
            }

            if price_level.volume > 0 {
                self.levels.insert(0, price_level);
                proof {
                    assert(rq0 < vol0);
                    assert(remaining_qty == 0);
                    assert(self.levels@ =~= seq![price_level] + cur.drop_first());
                    assert(price_level@ =~= (LevelView {
                        price: vcur[0].price,
                        orders: level_after(vcur[0].orders, rq0),
                    }));
                    assert(views_of(self.levels@) =~= seq![price_level@] + vcur.drop_first());
                    assert(sweep_levels(vcur, rq0) == views_of(self.levels@));
                    assert(sweep_fills(vcur, rq0) == level_fills(vcur[0].orders, rq0)
                        + sweep_fills(vcur.drop_first(), 0));
                    assert(evs_before + (level_fills(vcur[0].orders, rq0) + Seq::<
                        FillEvent,
                    >::empty()) =~= total_fill_events@);
                    assert(self.levels@.drop_first() =~= cur.drop_first());
                    assert(levels_volume(self.levels@) == price_level.volume as nat
                        + levels_volume(cur.drop_first()));
                    assert(levels_volume(cur) == vol0 + levels_volume(cur.drop_first()));
                    assert forall|a: int, b: int|
                        0 <= a < b < self.levels@.len() implies price_before(
                        self.side,
                        #[trigger] self.levels@[a].price,
                        #[trigger] self.levels@[b].price,
                    ) by {
                        assert(self.levels@[a].price == cur[a].price);
                        assert(self.levels@[b].price == cur[b].price);
                    }
                }
            } else {
                proof {
                    assert(rq0 >= vol0);
                    assert(remaining_qty == rq0 - vol0);
                    assert(sweep_fills(vcur, rq0) == level_fills(vcur[0].orders, rq0)
                        + sweep_fills(vcur.drop_first(), (rq0 - vol0) as nat));
                    assert(evs_before + (level_fills(vcur[0].orders, rq0) + sweep_fills(
                        vcur.drop_first(),
                        (rq0 - vol0) as nat,
                    )) =~= total_fill_events@ + sweep_fills(
                        views_of(self.levels@),
                        remaining_qty as nat,
                    ));
                    assert(sweep_levels(vcur, rq0) == sweep_levels(
                        vcur.drop_first(),
                        (rq0 - vol0) as nat,
                    ));
                    assert(levels_volume(cur) == vol0 + levels_volume(cur.drop_first()));
                }
            }
        }

        proof {
            assert(total_fill_events@ + sweep_fills(views_of(self.levels@), 0) =~= total_fill_events@);
            assert(sweep_levels(views_of(self.levels@), 0) == views_of(self.levels@));
        }
        self.volume = self.volume - qty;
        Ok(total_fill_events)
    }

    /// Number of distinct price levels.
    pub fn depth(&self) -> (r: usize)
        ensures
            r == self.levels@.len(),
    {
        self.levels.len()
    }

    /// Aggregate resting volume of the side, maintained incrementally.
    pub fn volume(&self) -> (r: u64)
        ensures
            r == self.volume,
    {
        self.volume
    }

    /// Best price by the side's comparator, or none if the book is empty.
    pub fn top(&self) -> (r: Option<u64>)
        ensures
            r == if self.levels@.len() == 0 {
                Option::<u64>::None
            } else {
                Option::<u64>::Some(self.levels@[0].price)
            },
    {
        if self.levels.len() == 0 {
            None
        } else {
            Some(self.levels[0].price)
        }
    }

    /// The sweep preconditions, evaluated before any mutation: a zero
    /// request, an empty book and a request beyond the resting volume are
    /// refused, in that order.
    fn validate_take(&self, qty: u64) -> (r: Result<(), TakeError>)
        ensures
            qty == 0 ==> r == Err::<(), TakeError>(TakeError::ZeroQuantity),
            qty != 0 && self.levels@.len() == 0 ==> r == Err::<(), TakeError>(
                TakeError::EmptyBook,
            ),
            qty != 0 && self.levels@.len() > 0 && qty > self.volume ==> r == Err::<(), TakeError>(
                TakeError::NotEnoughVolume,
            ),
            r is Ok <==> (qty != 0 && self.levels@.len() > 0 && qty <= self.volume),
    {
        if qty == 0 {
            Err(TakeError::ZeroQuantity)
        } else if self.levels.len() == 0 {
            Err(TakeError::EmptyBook)
        } else if qty > self.volume {
            Err(TakeError::NotEnoughVolume)
        } else {
            Ok(())
        }
    }
}

/// Conservation: in a well-formed side book the aggregate volume, the sum of
/// the level volumes and the sum of the remaining sizes of all resting
/// orders are one and the same quantity — and each level's volume is the sum
/// of its own queue's remaining sizes.
pub proof fn lemma_conservation(b: Book)
    requires
        b.wf(),
    ensures
        b.volume as nat == levels_volume(b.levels@),
        b.volume as nat == levels_orders_volume(b.levels@),
        forall|i: int|
            0 <= i < b.levels@.len() ==> (#[trigger] b.levels@[i]).volume as nat == orders_volume(
                b.levels@[i].orders@,
            ),
{
    lemma_levels_volume_is_orders_volume(b.levels@);
}

proof fn lemma_levels_volume_is_orders_volume(s: Seq<PriceLevel>)
    requires
        forall|i: int| 0 <= i < s.len() ==> (#[trigger] s[i]).wf(),
    ensures
        levels_volume(s) == levels_orders_volume(s),
    decreases s.len(),
{
    if s.len() > 0 {
        assert(forall|i: int|
            0 <= i < s.drop_first().len() ==> (#[trigger] s.drop_first()[i]).wf());
        lemma_levels_volume_is_orders_volume(s.drop_first());
    }
}

/// Sort invariant: a well-formed side book's levels are strictly ordered by
/// its side's comparator — descending price for bids, ascending for asks —
/// so prices are unique and index 0 is the best price.
pub proof fn lemma_sort_invariant(b: Book)
    requires
        b.wf(),
    ensures
        forall|i: int, j: int|
            0 <= i < j < b.levels@.len() ==> price_before(
                b.side,
                #[trigger] b.levels@[i].price,
                #[trigger] b.levels@[j].price,
            ),
{
}

/// Why a sweep was refused. Every refusal is side-effect-free: the book is
/// left exactly as it was.
#[derive(Clone, Copy, Debug)]
pub enum TakeError {
    /// No resting liquidity on the swept side.
    EmptyBook,
    /// The requested quantity exceeds the total resting volume on the side.
    NotEnoughVolume,
    /// The requested quantity is zero.
    ZeroQuantity,
}

} // verus!
