//! The synthetic quote book.
//!
//! The panel data carries neither an order book nor listing state, so both
//! are approximated from the closing prices alone.
//!
//! * A stock that traded today quotes a one-tick spread around its close.
//! * Shares trade inside an interval around the previous known close. A quote
//!   outside the interval cannot execute, so it becomes the infinity on its
//!   side: no ask at limit-up, no bid at limit-down.
//! * A stock without a close today has no quote at all, which holds the
//!   trader's mark at the last real price.
//! * A stock without a quote for more than `delist_days` consecutive trading
//!   days counts as delisted. A later quote relists it.
//!
//! No quote is ever missing: a stock with nothing to quote says so with
//! infinities.
use vstd::prelude::*;

use crate::double::{Double, INFINITE_BITS, SIGN_BIT};
use crate::graph::{Builder, Flags, Op, Pulses, Term, Vector, Wire, port, t2};
use crate::meaning::closest;

verus! {

/// The bit patterns of `0.10`, the daily price limit, and of `0.01`, the half
/// spread in yuan.
pub const PRICE_LIMIT: u64 = 0x3fb9_9999_9999_999a;

pub const TICK_SIZE: u64 = 0x3f84_7ae1_47ae_147b;

/// A stock without quotes for more than this many consecutive trading days
/// counts as delisted.
pub const DELIST_DAYS: u32 = 252;

/// What a lane is quoted from: its close, the spread `close - tick` to
/// `close + tick`, and the price interval about the previous known close,
/// rounded to ticks.
#[derive(Clone, Copy, Debug, PartialEq, Eq, Structural)]
pub struct Offer {
    pub close: Double,
    pub bid: Double,
    pub ask: Double,
    pub lower: Double,
    pub upper: Double,
}

/// What a lane of the book says.
#[derive(Clone, Copy, Debug, PartialEq, Eq, Structural)]
pub struct Quote {
    /// Whether the stock is listed.
    pub flag: bool,
    pub bid: Double,
    pub ask: Double,
}

/// Positive infinity.
pub open spec fn no_ask() -> Double {
    Double { bits: INFINITE_BITS }
}

/// Negative infinity.
pub open spec fn no_bid() -> Double {
    Double { bits: (SIGN_BIT + INFINITE_BITS) as u64 }
}

/// The state of a lane: the last known close and the length of the present
/// run of trading days without a quote.
pub ghost struct Lane {
    pub prev_close: Double,
    pub run: u32,
}

/// Whether a lane quotes: it has a row today, with a finite close.
pub open spec fn quotes_today(set: bool, offer: Offer) -> bool {
    set && offer.close.finite()
}

/// The state of a lane after a day.
pub open spec fn lane_after(lane: Lane, set: bool, offer: Offer) -> Lane {
    if quotes_today(set, offer) {
        Lane { prev_close: offer.close, run: 0 }
    } else {
        Lane {
            prev_close: lane.prev_close,
            run: if lane.run == u32::MAX {
                lane.run
            } else {
                (lane.run + 1) as u32
            },
        }
    }
}

/// The quote of a lane on a day. The interval holds only after a first known
/// close.
pub open spec fn quote_of(lane: Lane, set: bool, offer: Offer, delist_days: u32) -> Quote {
    let limited = lane.prev_close.finite();
    let quoted = quotes_today(set, offer);
    Quote {
        flag: lane_after(lane, set, offer).run <= delist_days,
        bid: if !quoted || (limited && offer.bid.below(offer.lower)) {
            no_bid()
        } else {
            offer.bid
        },
        ask: if !quoted || (limited && offer.upper.below(offer.ask)) {
            no_ask()
        } else {
            offer.ask
        },
    }
}

/// One-pass synthetic quote book over row signals and carried closes.
#[derive(Debug)]
pub struct SyntheticQuotes {
    delist_days: u32,
    prev_close: Vec<Double>,
    run: Vec<u32>,
}

impl SyntheticQuotes {
    pub closed spec fn delist_days(self) -> u32 {
        self.delist_days
    }

    /// The states of the lanes.
    pub closed spec fn lanes(self) -> Seq<Lane> {
        Seq::new(
            self.prev_close@.len(),
            |i: int| Lane { prev_close: self.prev_close@[i], run: self.run@[i] },
        )
    }

    /// Whether every lane has both parts of its state.
    pub closed spec fn well_formed(self) -> bool {
        self.prev_close@.len() == self.run@.len()
    }

    /// A book of so many lanes, none of which has a known close.
    pub fn init(n: usize, delist_days: u32) -> (r: SyntheticQuotes)
        ensures
            r.well_formed(),
            r.delist_days() == delist_days,
            r.lanes().len() == n,
            forall|i: int|
                0 <= i < n ==> (#[trigger] r.lanes()[i]).prev_close.nan() && r.lanes()[i].run == 0,
    {
        let mut prev_close: Vec<Double> = Vec::new();
        let mut run: Vec<u32> = Vec::new();
        for i in 0..n
            invariant
                prev_close@.len() == i,
                run@.len() == i,
                forall|k: int| 0 <= k < i ==> (#[trigger] prev_close@[k]).nan(),
                forall|k: int| 0 <= k < i ==> #[trigger] run@[k] == 0,
        {
            prev_close.push(Double::missing());
            run.push(0);
        }
        SyntheticQuotes { delist_days, prev_close, run }
    }

    /// The last known close of a lane, which its price interval is about; none
    /// before its first trading day.
    pub fn anchor(&self, i: usize) -> (r: Option<Double>)
        requires
            self.well_formed(),
            i < self.lanes().len(),
        ensures
            self.lanes()[i as int].prev_close.finite() ==> r == Some(
                self.lanes()[i as int].prev_close,
            ),
            !self.lanes()[i as int].prev_close.finite() ==> r is None,
    {
        if self.prev_close[i].is_finite() {
            Some(self.prev_close[i])
        } else {
            None
        }
    }

    /// Takes in a day: `signals[i]` is set where stock `i` has a row, and
    /// `offers[i]` is what it would be quoted from.
    pub fn compute(&mut self, signals: &Vec<bool>, offers: &Vec<Offer>) -> (r: Vec<Quote>)
        requires
            old(self).well_formed(),
            signals@.len() == old(self).lanes().len(),
            offers@.len() == old(self).lanes().len(),
        ensures
            final(self).well_formed(),
            final(self).delist_days() == old(self).delist_days(),
            final(self).lanes() == Seq::new(
                old(self).lanes().len(),
                |i: int| lane_after(old(self).lanes()[i], signals@[i], offers@[i]),
            ),
            r@ == Seq::new(
                old(self).lanes().len(),
                |i: int|
                    quote_of(
                        old(self).lanes()[i],
                        signals@[i],
                        offers@[i],
                        old(self).delist_days(),
                    ),
            ),
    {
        let mut quotes: Vec<Quote> = Vec::new();
        let ghost before = self.lanes();
        let n: usize = self.prev_close.len();
        for i in 0..n
            invariant
                n == before.len(),
                before == old(self).lanes(),
                old(self).well_formed(),
                signals@.len() == n,
                offers@.len() == n,
                self.prev_close@.len() == n,
                self.run@.len() == n,
                self.delist_days == old(self).delist_days,
                quotes@.len() == i,
                forall|k: int|
                    0 <= k < i ==> #[trigger] self.lanes()[k] == lane_after(
                        before[k],
                        signals@[k],
                        offers@[k],
                    ),
                forall|k: int| i <= k < n ==> #[trigger] self.lanes()[k] == before[k],
                forall|k: int|
                    0 <= k < i ==> #[trigger] quotes@[k] == quote_of(
                        before[k],
                        signals@[k],
                        offers@[k],
                        self.delist_days,
                    ),
        {
            let ghost now = self.lanes();
            assert(now[i as int] == before[i as int]);
            let offer = offers[i];
            let prev = self.prev_close[i];
            let limited = prev.is_finite();
            let mut bid = Double { bits: SIGN_BIT + INFINITE_BITS };
            let mut ask = Double { bits: INFINITE_BITS };
            if signals[i] && offer.close.is_finite() {
                if !(limited && offer.bid.is_below(offer.lower)) {
                    bid = offer.bid;
                }
                if !(limited && offer.upper.is_below(offer.ask)) {
                    ask = offer.ask;
                }
                self.prev_close.set(i, offer.close);
                self.run.set(i, 0);
            } else {
                let run: u32 = self.run[i];
                if run < u32::MAX {
                    self.run.set(i, run + 1);
                }
            }
            let flag = self.run[i] <= self.delist_days;
            quotes.push(Quote { flag, bid, ask });
            proof {
                assert forall|k: int| 0 <= k < n && k != i implies #[trigger] self.lanes()[k]
                    == now[k] by {}
            }
        }
        assert(self.lanes() =~= Seq::new(
            before.len(),
            |i: int| lane_after(before[i], signals@[i], offers@[i]),
        ));
        assert(quotes@ =~= Seq::new(
            before.len(),
            |i: int| quote_of(before[i], signals@[i], offers@[i], self.delist_days),
        ));
        quotes
    }
}

/// A lane after a list of days, each its row signal and its offer.
pub open spec fn after_days(lane: Lane, days: Seq<(bool, Offer)>) -> Lane
    decreases days.len(),
{
    if days.len() == 0 {
        lane
    } else {
        lane_after(after_days(lane, days.drop_last()), days.last().0, days.last().1)
    }
}

/// No quote is missing as long as no finite close is offered at a missing
/// price.
pub proof fn quotes_are_never_missing(lane: Lane, set: bool, offer: Offer, delist_days: u32)
    requires
        quotes_today(set, offer) ==> !offer.bid.nan() && !offer.ask.nan(),
    ensures
        !quote_of(lane, set, offer, delist_days).bid.nan(),
        !quote_of(lane, set, offer, delist_days).ask.nan(),
{
}

/// Where the offers are finite and ordered, so is every quote, on every day
/// and whatever came before: a bid is finite or negative infinity, an ask
/// finite or positive infinity, and the bid is at most the ask. Without a row
/// or a finite close both are infinite, and a finite one is what was offered.
pub proof fn quotes_are_ordered(lane: Lane, set: bool, offer: Offer, delist_days: u32)
    requires
        quotes_today(set, offer) ==> offer.bid.finite() && offer.ask.finite()
            && offer.bid.at_most(offer.ask),
    ensures
        ({
            let quote = quote_of(lane, set, offer, delist_days);
            &&& quote.bid.at_most(quote.ask)
            &&& quote.bid.finite() || quote.bid == no_bid()
            &&& quote.ask.finite() || quote.ask == no_ask()
            &&& !quotes_today(set, offer) ==> quote.bid == no_bid() && quote.ask == no_ask()
            &&& quote.bid.finite() ==> quote.bid == offer.bid
            &&& quote.ask.finite() ==> quote.ask == offer.ask
        }),
{
}

/// A stock without quotes for `days` days keeps its last known close, and its
/// run grows by their number, held at what the counter can say.
pub proof fn a_quoteless_run_counts_days(lane: Lane, days: Seq<(bool, Offer)>)
    requires
        forall|i: int|
            0 <= i < days.len() ==> !quotes_today((#[trigger] days[i]).0, days[i].1),
    ensures
        after_days(lane, days).prev_close == lane.prev_close,
        after_days(lane, days).run == if lane.run + days.len() <= u32::MAX {
            lane.run + days.len()
        } else {
            u32::MAX as int
        },
    decreases days.len(),
{
    if days.len() > 0 {
        let rest = days.drop_last();
        assert forall|i: int| 0 <= i < rest.len() implies !quotes_today(
            (#[trigger] rest[i]).0,
            rest[i].1,
        ) by {
            assert(rest[i] == days[i]);
        }
        a_quoteless_run_counts_days(lane, rest);
        assert(!quotes_today(days[days.len() - 1].0, days[days.len() - 1].1));
    }
}

/// After a quote, a stock is delisted exactly when more than `delist_days`
/// consecutive trading days have gone by without another.
pub proof fn a_stock_is_delisted_after_its_days(
    lane: Lane,
    offer: Offer,
    days: Seq<(bool, Offer)>,
    delist_days: u32,
)
    requires
        offer.close.finite(),
        delist_days < u32::MAX,
        days.len() > 0,
        forall|i: int|
            0 <= i < days.len() ==> !quotes_today((#[trigger] days[i]).0, days[i].1),
    ensures
        ({
            let quoted = lane_after(lane, true, offer);
            let before = after_days(quoted, days.drop_last());
            quote_of(before, days.last().0, days.last().1, delist_days).flag <==> days.len()
                <= delist_days
        }),
{
    let quoted = lane_after(lane, true, offer);
    a_quoteless_run_counts_days(quoted, days);
}

/// A quote relists a stock, whatever came before.
pub proof fn a_quote_relists(lane: Lane, offer: Offer, delist_days: u32)
    requires
        offer.close.finite(),
    ensures
        quote_of(lane, true, offer, delist_days).flag,
        lane_after(lane, true, offer).run == 0,
{
}

/// The quote book over row signals and carried closes.
pub open spec fn quote_book(signals: Term, closes: Term) -> Term {
    t2(
        Op::Quotes {
            limit: Double { bits: PRICE_LIMIT },
            tick: Double { bits: TICK_SIZE },
            delist_days: DELIST_DAYS,
        },
        signals,
        closes,
    )
}

/// Wires the synthetic quote book: listing flags, bids and asks, refreshed on
/// the daily pulse and kept in between.
pub fn build_quotes(
    b: &mut Builder,
    daily_signals: Wire<Pulses>,
    close_carried: Wire<Vector>,
) -> (r: (Wire<Flags>, Wire<Vector>, Wire<Vector>))
    requires
        old(b).ordered(),
        old(b).has(daily_signals),
        old(b).has(close_carried),
    ensures
        final(b).grown(*old(b)),
        final(b).has(r.0),
        final(b).has(r.1),
        final(b).has(r.2),
        ({
            let book = quote_book(daily_signals@, close_carried@);
            r.0@ == port(0, book) && r.1@ == port(1, book) && r.2@ == port(2, book)
        }),
{
    b.quotes(
        Double { bits: PRICE_LIMIT },
        Double { bits: TICK_SIZE },
        DELIST_DAYS,
        daily_signals,
        close_carried,
    )
}

/// After a first known close, the price interval alone decides each side of
/// a quote: there is no bid exactly when the offered one lies under the lower
/// limit, and no ask exactly when the offered one lies over the upper limit.
/// Otherwise the side is what was offered.
pub proof fn the_interval_decides_each_side(lane: Lane, offer: Offer, delist_days: u32)
    requires
        lane.prev_close.finite(),
        offer.close.finite(),
        offer.bid.finite(),
        offer.ask.finite(),
        offer.lower.finite(),
        offer.upper.finite(),
    ensures
        ({
            let quote = quote_of(lane, true, offer, delist_days);
            &&& quote.bid == no_bid() <==> offer.bid.rank() < offer.lower.rank()
            &&& offer.bid.rank() >= offer.lower.rank() ==> quote.bid == offer.bid
            &&& quote.ask == no_ask() <==> offer.ask.rank() > offer.upper.rank()
            &&& offer.ask.rank() <= offer.upper.rank() ==> quote.ask == offer.ask
            &&& quote.flag
        }),
{
}

/// One side of a quote does not depend on the other side's offer or limit.
pub proof fn the_sides_are_apart(lane: Lane, set: bool, a: Offer, b: Offer, delist_days: u32)
    requires
        a.close == b.close,
    ensures
        a.bid == b.bid && a.lower == b.lower ==> quote_of(lane, set, a, delist_days).bid
            == quote_of(lane, set, b, delist_days).bid,
        a.ask == b.ask && a.upper == b.upper ==> quote_of(lane, set, a, delist_days).ask
            == quote_of(lane, set, b, delist_days).ask,
        quote_of(lane, set, a, delist_days).flag == quote_of(lane, set, b, delist_days).flag,
{
}

/// Before its first known close a stock has no price interval: what is
/// offered is quoted.
pub proof fn a_first_quote_is_unlimited(lane: Lane, offer: Offer, delist_days: u32)
    requires
        !lane.prev_close.finite(),
        offer.close.finite(),
    ensures
        quote_of(lane, true, offer, delist_days) == (Quote {
            flag: true,
            bid: offer.bid,
            ask: offer.ask,
        }),
{
}

/// A day without a row, or without a finite close, says nothing: no bid, no
/// ask, and the last known close stands.
pub proof fn a_day_without_a_close_quotes_nothing(
    lane: Lane,
    set: bool,
    offer: Offer,
    delist_days: u32,
)
    requires
        !set || !offer.close.finite(),
    ensures
        ({
            let quote = quote_of(lane, set, offer, delist_days);
            let next = lane_after(lane, set, offer);
            &&& quote.bid == no_bid()
            &&& quote.ask == no_ask()
            &&& next.prev_close == lane.prev_close
            &&& lane.run < u32::MAX ==> next.run == lane.run + 1
            &&& lane.run < u32::MAX ==> (quote.flag <==> lane.run < delist_days)
        }),
{
}

/// The next interval is about today's close, once there is one.
pub proof fn a_close_becomes_known(lane: Lane, offer: Offer)
    requires
        offer.close.finite(),
    ensures
        lane_after(lane, true, offer).prev_close == offer.close,
        lane_after(lane, true, offer).prev_close.finite(),
        lane_after(lane, true, offer).run == 0,
{
}

/// Nothing is below everything that can be offered, and nothing above.
pub proof fn the_infinities_bound_every_price(price: Double)
    requires
        price.finite(),
    ensures
        no_bid().below(price),
        price.below(no_ask()),
        !no_bid().finite(),
        !no_ask().finite(),
{
}

/// The quote book is the engine's, over the row signals and the closes, with
/// the numbers closest to a tenth and to a hundredth as its limit and its
/// tick, and with a trading year until delisting.
pub proof fn the_book_has_its_constants(signals: Term, closes: Term)
    ensures
        ({
            let book = quote_book(signals, closes);
            &&& book.inputs == seq![signals, closes]
            &&& book.op matches Op::Quotes { limit, tick, delist_days } && closest(
                limit,
                1,
                10,
                56,
            ) && closest(tick, 1, 100, 59) && delist_days == 252
        }),
{
    vstd::arithmetic::power2::lemma2_to64_rest();
}

} // verus!
