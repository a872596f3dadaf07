//! The price fields that the formula catalogs share.
//!
//! All price-shaped fields are forward-adjusted for dividends and splits with
//! the same multipliers as the adjusted close, and every field is missing
//! where a stock did not trade.
//!
//! | Field | Meaning |
//! | --- | --- |
//! | `$open`, `$high`, `$low`, `$close` | adjusted daily prices |
//! | `$volume` | daily volume in shares, divided by the multiplier |
//! | `$vwap` | adjusted daily volume-weighted average price |
use vstd::prelude::*;

use crate::data::{MarketData, MarketView};
use crate::expr::{Context, ContextView};
use crate::graph::{Binary, Builder, Term, Vector, Wire, binary, terms, texts};
use crate::meaning::{Run, a_quotient_times_its_divisor, group_values, known, num, value};

verus! {

/// A raw price brought to the adjusted scale.
pub open spec fn adjusted(m: MarketView, price: Term) -> Term {
    binary(Binary::Mul, price, m.adj_multipliers)
}

/// The names of the price fields.
pub open spec fn price_names() -> Seq<Seq<char>> {
    seq!["open"@, "high"@, "low"@, "close"@, "volume"@, "vwap"@]
}

/// The price fields.
pub open spec fn price_fields(m: MarketView) -> Seq<Term> {
    seq![
        adjusted(m, m.open),
        adjusted(m, m.high),
        adjusted(m, m.low),
        m.adj_close,
        binary(Binary::Div, m.volume, m.adj_multipliers),
        adjusted(m, binary(Binary::Div, m.amount, m.volume)),
    ]
}

/// The context of the price fields, on the daily clock.
pub open spec fn price_context(m: MarketView) -> ContextView {
    ContextView {
        clock: m.daily,
        lanes: m.n,
        names: price_names(),
        fields: price_fields(m),
        lowered: Map::empty(),
    }
}

/// The names of the price fields differ.
pub proof fn price_names_differ()
    ensures
        forall|i: int, j: int| 0 <= i < j < 6 ==> price_names()[i] != price_names()[j],
{
    reveal_strlit("open");
    reveal_strlit("high");
    reveal_strlit("low");
    reveal_strlit("close");
    reveal_strlit("volume");
    reveal_strlit("vwap");
    let names = price_names();
    assert(names[0].len() == 4 && names[0][0] == 'o');
    assert(names[1].len() == 4 && names[1][0] == 'h');
    assert(names[2].len() == 3);
    assert(names[3].len() == 5);
    assert(names[4].len() == 6);
    assert(names[5].len() == 4 && names[5][0] == 'v');
}

/// Builds the shared price-field context.
pub fn build_price_context(b: &mut Builder, m: &MarketData) -> (r: Context)
    requires
        old(b).ordered(),
        m.belongs(*old(b)),
    ensures
        final(b).grown(*old(b)),
        r.belongs(*final(b)),
        r@ == price_context(m@),
{
    let mult = m.adj_multipliers;
    let open = b.binary(Binary::Mul, m.open, mult);
    let high = b.binary(Binary::Mul, m.high, mult);
    let low = b.binary(Binary::Mul, m.low, mult);
    let volume = b.binary(Binary::Div, m.volume, mult);
    let raw_vwap = b.binary(Binary::Div, m.amount, m.volume);
    let vwap = b.binary(Binary::Mul, raw_vwap, mult);
    let names: Vec<String> = vec![
        "open".to_string(),
        "high".to_string(),
        "low".to_string(),
        "close".to_string(),
        "volume".to_string(),
        "vwap".to_string(),
    ];
    let fields: Vec<Wire<Vector>> = vec![open, high, low, m.adj_close, volume, vwap];
    let r = Context { clock: m.daily, lanes: m.n, names, fields, lowered: Vec::new() };
    proof {
        assert(texts(r.names@) =~= price_names());
        assert(terms(r.fields@) =~= price_fields(m@));
        price_names_differ();
        assert forall|i: int, j: int|
            #![trigger r.names@[i], r.names@[j]]
            0 <= i < j < r.names@.len() implies r.names@[i]@ != r.names@[j]@ by {
            assert(texts(r.names@)[i] == r.names@[i]@);
            assert(texts(r.names@)[j] == r.names@[j]@);
        }
    }
    r
}

/// Prices are brought to one scale: open, high and low are raw prices times
/// the day's multiplier, volume is divided by it, and the mean price is
/// amount over volume times it, so that price times volume is not changed.
pub proof fn adjusting_keeps_amounts(run: Run, m: MarketView, lane: int, now: int)
    requires
        known(run, m.open, lane, now),
        known(run, m.high, lane, now),
        known(run, m.low, lane, now),
        known(run, m.volume, lane, now),
        known(run, m.amount, lane, now),
        known(run, m.adj_multipliers, lane, now),
        num(run, m.volume, lane, now) != 0real,
        num(run, m.adj_multipliers, lane, now) != 0real,
    ensures
        ({
            let by = num(run, m.adj_multipliers, lane, now);
            let v = price_context(m);
            let at = |i: int| value(run, v.fields[i], lane, now);
            &&& v.names == price_names()
            &&& v.clock == m.daily
            &&& v.lanes == m.n
            &&& price_names()[0] == "open"@ && at(0) == Some(num(run, m.open, lane, now) * by)
            &&& price_names()[1] == "high"@ && at(1) == Some(num(run, m.high, lane, now) * by)
            &&& price_names()[2] == "low"@ && at(2) == Some(num(run, m.low, lane, now) * by)
            &&& price_names()[3] == "close"@ && v.fields[3] == m.adj_close
            &&& price_names()[4] == "volume"@ && at(4) is Some && at(4)->0 * by == num(
                run,
                m.volume,
                lane,
                now,
            )
            &&& price_names()[5] == "vwap"@ && at(5) is Some && at(5)->0 * at(4)->0 == num(
                run,
                m.amount,
                lane,
                now,
            )
        }),
{
    broadcast use group_values;

    let by = num(run, m.adj_multipliers, lane, now);
    let volume = num(run, m.volume, lane, now);
    let amount = num(run, m.amount, lane, now);
    a_quotient_times_its_divisor(volume, by);
    a_quotient_times_its_divisor(amount, volume);
    let (p, q) = (amount / volume, volume / by);
    assert((p * by) * q == amount) by (nonlinear_arith)
        requires
            q * by == volume,
            p * volume == amount,
    ;
}

} // verus!
