//! What a simulated trader trades against, and the value of what it holds.
use vstd::prelude::*;

use crate::double::Double;
use crate::graph::{
    Builder, Bundle, Flags, Op, Payload, Pulse, Pulses, Scalar, Term, TraderParams, Vector,
    Wire, plain, port,
};

verus! {

/// A quote book and the dividends of what it quotes, on the clock of trading
/// days.
#[derive(Clone, Copy)]
pub struct Venue {
    pub daily: Wire<Pulse>,
    pub flags: Wire<Flags>,
    pub bids: Wire<Vector>,
    pub asks: Wire<Vector>,
    pub div_signals: Wire<Pulses>,
    pub share_divs: Wire<Vector>,
    pub cash_divs: Wire<Vector>,
}

impl View for Venue {
    type V = Seq<Term>;

    open spec fn view(&self) -> Seq<Term> {
        seq![
            self.daily@,
            self.flags@,
            self.bids@,
            self.asks@,
            self.div_signals@,
            self.share_divs@,
            self.cash_divs@,
        ]
    }
}

impl Venue {
    /// Whether all the wires belong to the graph.
    pub open spec fn belongs(self, b: Builder) -> bool {
        &&& b.has(self.daily)
        &&& b.has(self.flags)
        &&& b.has(self.bids)
        &&& b.has(self.asks)
        &&& b.has(self.div_signals)
        &&& b.has(self.share_divs)
        &&& b.has(self.cash_divs)
    }
}

/// The venue over a quote book, and dividends.
pub open spec fn venue_of(
    daily: Term,
    book: Term,
    div_signals: Term,
    share_divs: Term,
    cash_divs: Term,
) -> Seq<Term> {
    seq![
        daily,
        port(0, book),
        port(1, book),
        port(2, book),
        div_signals,
        share_divs,
        cash_divs,
    ]
}

/// The net asset value of a trader that follows a book of weights.
pub open spec fn net_value(trader: Op, venue: Seq<Term>, rebalance: Term, weights: Term) -> Term {
    port(2, plain(trader, venue + seq![rebalance, weights]))
}

/// A trader that pays no fees and fills at the quotes of the next trading day.
pub open spec fn frictionless(initial_cash: Double) -> Op {
    Op::Benchmark { delayed: true, initial_cash }
}

/// What trading costs.
#[derive(Clone, Copy, Debug, PartialEq, Eq, Structural)]
pub enum Costs {
    /// Nothing.
    Frictionless,
    /// On every fill, a fraction of the traded amount, and no less than a
    /// minimum.
    Fees { rate_buy: Double, rate_sell: Double, min: Double },
}

/// The costs of three fees: trading without any is frictionless.
pub fn costs_of(rate_buy: Double, rate_sell: Double, min: Double) -> (r: Costs)
    ensures
        r == if rate_buy.rank() == 0 && rate_sell.rank() == 0 && min.rank() == 0 {
            Costs::Frictionless
        } else {
            Costs::Fees { rate_buy, rate_sell, min }
        },
{
    if rate_buy.order() == 0 && rate_sell.order() == 0 && min.order() == 0 {
        Costs::Frictionless
    } else {
        Costs::Fees { rate_buy, rate_sell, min }
    }
}

/// A trader at these costs that fills at the quotes of the next trading day.
pub open spec fn trader_at(costs: Costs, initial_cash: Double) -> Op {
    match costs {
        Costs::Frictionless => frictionless(initial_cash),
        Costs::Fees { rate_buy, rate_sell, min } => Op::Fractional(
            TraderParams {
                delayed: true,
                initial_cash,
                fee_base_buy: min,
                fee_base_sell: min,
                fee_rate_buy: rate_buy,
                fee_rate_sell: rate_sell,
            },
        ),
    }
}

fn follow(
    b: &mut Builder,
    trader: Op,
    venue: &Venue,
    rebalance: Wire<Pulse>,
    weights: Wire<Vector>,
) -> (r: Wire<Scalar>)
    requires
        old(b).ordered(),
        venue.belongs(*old(b)),
        old(b).has(rebalance),
        old(b).has(weights),
    ensures
        final(b).grown(*old(b)),
        final(b).nodes().len() == old(b).nodes().len() + 2,
        final(b).has(r),
        r@ == net_value(trader, venue@, rebalance@, weights@),
{
    let ghost given = venue@ + seq![rebalance@, weights@];
    let inputs = vec![
        venue.daily.index(),
        venue.flags.index(),
        venue.bids.index(),
        venue.asks.index(),
        venue.div_signals.index(),
        venue.share_divs.index(),
        venue.cash_divs.index(),
        rebalance.index(),
        weights.index(),
    ];
    let account: Wire<Bundle> = b.node(trader, Payload::Nothing, inputs, Ghost(given));
    b.output(2, account)
}

/// The net asset value of following a book of weights without fees, filled at
/// the quotes of the next trading day.
pub fn follow_frictionless(
    b: &mut Builder,
    initial_cash: Double,
    venue: &Venue,
    rebalance: Wire<Pulse>,
    weights: Wire<Vector>,
) -> (r: Wire<Scalar>)
    requires
        old(b).ordered(),
        venue.belongs(*old(b)),
        old(b).has(rebalance),
        old(b).has(weights),
    ensures
        final(b).grown(*old(b)),
        final(b).nodes().len() == old(b).nodes().len() + 2,
        final(b).has(r),
        r@ == net_value(frictionless(initial_cash), venue@, rebalance@, weights@),
{
    follow(b, Op::Benchmark { delayed: true, initial_cash }, venue, rebalance, weights)
}

/// The net asset value of following a book of weights at a cost.
pub fn follow_with_fees(
    b: &mut Builder,
    params: TraderParams,
    venue: &Venue,
    rebalance: Wire<Pulse>,
    weights: Wire<Vector>,
) -> (r: Wire<Scalar>)
    requires
        old(b).ordered(),
        venue.belongs(*old(b)),
        old(b).has(rebalance),
        old(b).has(weights),
    ensures
        final(b).grown(*old(b)),
        final(b).nodes().len() == old(b).nodes().len() + 2,
        final(b).has(r),
        r@ == net_value(Op::Fractional(params), venue@, rebalance@, weights@),
{
    follow(b, Op::Fractional(params), venue, rebalance, weights)
}

/// The net asset value of following a book of weights at given costs, filled
/// at the quotes of the next trading day.
pub fn follow_at(
    b: &mut Builder,
    costs: Costs,
    initial_cash: Double,
    venue: &Venue,
    rebalance: Wire<Pulse>,
    weights: Wire<Vector>,
) -> (r: Wire<Scalar>)
    requires
        old(b).ordered(),
        venue.belongs(*old(b)),
        old(b).has(rebalance),
        old(b).has(weights),
    ensures
        final(b).grown(*old(b)),
        final(b).nodes().len() == old(b).nodes().len() + 2,
        final(b).has(r),
        r@ == net_value(trader_at(costs, initial_cash), venue@, rebalance@, weights@),
{
    match costs {
        Costs::Frictionless => follow_frictionless(b, initial_cash, venue, rebalance, weights),
        Costs::Fees { rate_buy, rate_sell, min } => {
            let params = TraderParams {
                delayed: true,
                initial_cash,
                fee_base_buy: min,
                fee_base_sell: min,
                fee_rate_buy: rate_buy,
                fee_rate_sell: rate_sell,
            };
            follow_with_fees(b, params, venue, rebalance, weights)
        },
    }
}

/// A trader fills at the quotes of the next trading day, starts with the
/// given cash, and charges what it is told: the rate of a side on that side,
/// and the minimum on both.
pub proof fn a_trader_charges_what_it_is_told(costs: Costs, initial_cash: Double)
    ensures
        match costs {
            Costs::Frictionless => trader_at(costs, initial_cash) matches Op::Benchmark {
                delayed,
                initial_cash: cash,
            } && delayed && cash == initial_cash,
            Costs::Fees { rate_buy, rate_sell, min } => trader_at(costs, initial_cash) matches
                Op::Fractional(p) && p.delayed && p.initial_cash == initial_cash && p.fee_rate_buy
                == rate_buy && p.fee_rate_sell == rate_sell && p.fee_base_buy == min
                && p.fee_base_sell == min,
        },
{
}

/// What a trader reads: the trading days, the flags, bids and asks of one
/// quote book, the dividends, and the book of weights with its clock. Its
/// value is its third output.
pub proof fn a_trader_reads_its_venue(
    trader: Op,
    daily: Term,
    book: Term,
    div_signals: Term,
    share_divs: Term,
    cash_divs: Term,
    rebalance: Term,
    weights: Term,
)
    ensures
        ({
            let venue = venue_of(daily, book, div_signals, share_divs, cash_divs);
            let nav = net_value(trader, venue, rebalance, weights);
            let account = nav.inputs[0];
            &&& nav.op == Op::Port(2)
            &&& account.op == trader
            &&& account.inputs.len() == 9
            &&& account.inputs[0] == daily
            &&& account.inputs[1].op == Op::Port(0)
            &&& account.inputs[1].inputs == seq![book]
            &&& account.inputs[2].op == Op::Port(1)
            &&& account.inputs[2].inputs == seq![book]
            &&& account.inputs[3].op == Op::Port(2)
            &&& account.inputs[3].inputs == seq![book]
            &&& account.inputs[4] == div_signals
            &&& account.inputs[5] == share_divs
            &&& account.inputs[6] == cash_divs
            &&& account.inputs[7] == rebalance
            &&& account.inputs[8] == weights
        }),
{
}

} // verus!
