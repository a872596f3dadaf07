//! The market data the scorer trades against: closing prices, dividends and
//! share counts, and nothing else.
//!
//! Prices and dividends are events, and only those inside the scoring window
//! and its warm-up matter. Share counts are a level, so that panel is read
//! with its earlier history folded in: without it every stock whose last
//! issue predates the warm-up would drop out of the market-cap ranking.
use vstd::prelude::*;

use crate::data::{panel, panel_file, parquet, todays};
use crate::graph::{Builder, Op, Pulse, Pulses, Term, Vector, Wire, port, t1, texts};
use crate::time::Instant;
use crate::data::is_column;

verus! {

/// The market data wired by [`build_market_data`].
pub struct MarketData {
    /// One pulse per trading day (when any stock has a row).
    pub daily: Wire<Pulse>,
    /// Per-stock signals: element `i` pulses on stock `i`'s trading days.
    pub price_signals: Wire<Pulses>,
    /// Per-stock dividend-event signals.
    pub div_signals: Wire<Pulses>,
    /// Closing prices, carried: what the quote book reads.
    pub close_carried: Wire<Vector>,
    /// Closing prices, missing where the stock did not trade: what the
    /// market-cap ranking reads, so that a suspended stock drops out of it.
    pub close: Wire<Vector>,
    /// Share dividends per share held.
    pub share_divs: Wire<Vector>,
    /// Cash dividends per share held.
    pub cash_divs: Wire<Vector>,
    /// Circulating share count, carried.
    pub circulating: Wire<Vector>,
}

/// What the market data carries, as terms.
pub ghost struct MarketView {
    pub daily: Term,
    pub price_signals: Term,
    pub div_signals: Term,
    pub close_carried: Term,
    pub close: Term,
    pub share_divs: Term,
    pub cash_divs: Term,
    pub circulating: Term,
}

impl View for MarketData {
    type V = MarketView;

    open spec fn view(&self) -> MarketView {
        MarketView {
            daily: self.daily@,
            price_signals: self.price_signals@,
            div_signals: self.div_signals@,
            close_carried: self.close_carried@,
            close: self.close@,
            share_divs: self.share_divs@,
            cash_divs: self.cash_divs@,
            circulating: self.circulating@,
        }
    }
}

impl MarketData {
    /// Whether all the wires belong to the graph.
    pub open spec fn belongs(self, b: Builder) -> bool {
        &&& b.has(self.daily)
        &&& b.has(self.price_signals)
        &&& b.has(self.div_signals)
        &&& b.has(self.close_carried)
        &&& b.has(self.close)
        &&& b.has(self.share_divs)
        &&& b.has(self.cash_divs)
        &&& b.has(self.circulating)
    }
}

/// The market data of the panels in a directory.
pub open spec fn market(
    dir: Seq<char>,
    start: Option<Instant>,
    end: Option<Instant>,
) -> MarketView {
    let prices = parquet(
        panel_file(dir, "daily_prices"@),
        seq!["prices.close"@],
        start,
        end,
        false,
    );
    let divs = parquet(
        panel_file(dir, "dividends"@),
        seq!["dividends.share"@, "dividends.cash"@],
        start,
        end,
        false,
    );
    let equity = parquet(
        panel_file(dir, "equity_structures"@),
        seq!["shares.circulating"@],
        start,
        end,
        true,
    );
    let price_signals = port(0, prices);
    let daily = t1(Op::Any, price_signals);
    MarketView {
        daily,
        price_signals,
        div_signals: port(0, divs),
        close_carried: port(1, prices),
        close: todays(price_signals, port(1, prices), daily),
        share_divs: port(1, divs),
        cash_divs: port(2, divs),
        circulating: port(1, equity),
    }
}

/// Wires the market data of the Parquet panels in `data_dir`.
pub fn build_market_data(
    b: &mut Builder,
    data_dir: &str,
    data_start: Option<Instant>,
    data_end: Option<Instant>,
) -> (r: MarketData)
    requires
        old(b).ordered(),
    ensures
        final(b).grown(*old(b)),
        r.belongs(*final(b)),
        r@ == market(data_dir@, data_start, data_end),
{
    let price_columns = vec!["prices.close".to_string()];
    let div_columns = vec!["dividends.share".to_string(), "dividends.cash".to_string()];
    let equity_columns = vec!["shares.circulating".to_string()];
    assert(texts(price_columns@) =~= seq!["prices.close"@]);
    assert(texts(div_columns@) =~= seq!["dividends.share"@, "dividends.cash"@]);
    assert(texts(equity_columns@) =~= seq!["shares.circulating"@]);
    let prices = panel(b, data_dir, "daily_prices", &price_columns, data_start, data_end, false);
    let divs = panel(b, data_dir, "dividends", &div_columns, data_start, data_end, false);
    let equity = panel(
        b,
        data_dir,
        "equity_structures",
        &equity_columns,
        data_start,
        data_end,
        true,
    );
    let price_signals = prices.signals;
    let close_carried = prices.values[0];
    let daily = b.any(price_signals);
    let close = b.collect(price_signals, close_carried, daily);
    MarketData {
        daily,
        price_signals,
        div_signals: divs.signals,
        close_carried,
        close,
        share_divs: divs.values[0],
        cash_divs: divs.values[1],
        circulating: equity.values[0],
    }
}

/// The scorer trades against the columns of these names: closes carried and
/// today's, both dividends, and the circulating shares. Share counts alone
/// are read with the history before the first instant.
pub proof fn the_scorer_reads_its_columns(
    dir: Seq<char>,
    start: Option<Instant>,
    end: Option<Instant>,
)
    ensures
        ({
            let m = market(dir, start, end);
            let prices = dir + "/"@ + "daily_prices"@ + ".parquet"@;
            let dividends = dir + "/"@ + "dividends"@ + ".parquet"@;
            let equity = dir + "/"@ + "equity_structures"@ + ".parquet"@;
            &&& is_column(m.close_carried, prices, "prices.close"@)
            &&& m.price_signals.op == Op::Port(0)
            &&& m.price_signals.inputs == m.close_carried.inputs
            &&& m.daily.op == Op::Any && m.daily.inputs == seq![m.price_signals]
            &&& m.close.op == Op::Collect
            &&& m.close.inputs == seq![m.price_signals, m.close_carried, m.daily]
            &&& is_column(m.share_divs, dividends, "dividends.share"@)
            &&& is_column(m.cash_divs, dividends, "dividends.cash"@)
            &&& m.div_signals.op == Op::Port(0)
            &&& m.div_signals.inputs == m.share_divs.inputs
            &&& m.share_divs.inputs == m.cash_divs.inputs
            &&& is_column(m.circulating, equity, "shares.circulating"@)
            &&& m.close_carried.inputs[0].op == (Op::Parquet { start, end, prefill: false })
            &&& m.share_divs.inputs[0].op == (Op::Parquet { start, end, prefill: false })
            &&& m.circulating.inputs[0].op == (Op::Parquet { start, end, prefill: true })
        }),
{
}

} // verus!
