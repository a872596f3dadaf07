//! The quote book of the Markowitz strategy: that of the scorer, with stocks
//! delisted sooner.
use vstd::prelude::*;

use crate::double::Double;
use crate::graph::{Builder, Flags, Op, Pulses, Term, Vector, Wire, port, t2};
use crate::quotes::{PRICE_LIMIT, TICK_SIZE};
use crate::quotes::quote_book as scorers_book;

verus! {

/// A stock is delisted after more than this many trading days in a row
/// without a quote.
pub const DELIST_DAYS: u32 = 20;

/// The quote book over row signals and carried closes.
pub open spec fn quote_book(signals: Term, closes: Term) -> Term {
    t2(
        Op::Quotes {
            limit: Double { bits: PRICE_LIMIT },
            tick: Double { bits: TICK_SIZE },
            delist_days: DELIST_DAYS,
        },
        signals,
        closes,
    )
}

/// Wires the synthetic quote book: listing flags, bids and asks.
pub fn build_quotes(
    b: &mut Builder,
    daily_signals: Wire<Pulses>,
    close_carried: Wire<Vector>,
) -> (r: (Wire<Flags>, Wire<Vector>, Wire<Vector>))
    requires
        old(b).ordered(),
        old(b).has(daily_signals),
        old(b).has(close_carried),
    ensures
        final(b).grown(*old(b)),
        final(b).has(r.0),
        final(b).has(r.1),
        final(b).has(r.2),
        ({
            let book = quote_book(daily_signals@, close_carried@);
            r.0@ == port(0, book) && r.1@ == port(1, book) && r.2@ == port(2, book)
        }),
{
    b.quotes(
        Double { bits: PRICE_LIMIT },
        Double { bits: TICK_SIZE },
        DELIST_DAYS,
        daily_signals,
        close_carried,
    )
}

/// The book differs from the scorer's in when a stock is delisted, and in
/// nothing else: after twenty trading days without a quote.
pub proof fn the_book_delists_sooner(signals: Term, closes: Term)
    ensures
        ({
            let book = quote_book(signals, closes);
            let scorers = scorers_book(signals, closes);
            &&& book.inputs == seq![signals, closes]
            &&& book.inputs == scorers.inputs
            &&& book.op matches Op::Quotes { limit, tick, delist_days } && scorers.op
                == (Op::Quotes { limit, tick, delist_days: 252 }) && delist_days == 20
        }),
{
}

} // verus!
