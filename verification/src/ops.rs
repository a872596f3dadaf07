//! The operators of the engine, as typed methods of the [`Builder`].
use vstd::prelude::*;

use crate::double::Double;
use crate::graph::{
    Binary, Builder, Bundle, Flags, Integers, Matrix, Metric, Op, Param, ParamView, Payload,
    PayloadView, Pulse, Pulses, Rolling, Scalar, Series, Term, Unary, Vector, Window, Wire, binary,
    params_view, plain, port, rolling, t1, t2, t3, terms, unary,
};
use crate::time::Instant;

verus! {

/// A pulse at each of the instants.
pub open spec fn ticks(instants: Seq<Instant>) -> Term {
    Term { op: Op::Ticks, data: PayloadView::Instants(instants), inputs: Seq::empty() }
}

/// One where a flag is set, zero elsewhere.
pub open spec fn indicator(flags: Seq<bool>) -> Term {
    Term { op: Op::Indicator, data: PayloadView::Flags(flags), inputs: Seq::empty() }
}

/// An operator implemented by a Python module, over some inputs.
pub open spec fn module(
    name: Seq<char>,
    params: Seq<(Seq<char>, ParamView)>,
    inputs: Seq<Term>,
) -> Term {
    Term { op: Op::Module, data: PayloadView::Module { name, params }, inputs }
}

/// Names a parameter of a Python module.
pub(crate) fn param(name: &str, value: Param) -> (r: (String, Param))
    ensures
        r.0@ == name@,
        r.1 == value,
{
    (name.to_string(), value)
}

impl Builder {
    /// A cross-section made from one other.
    pub fn unary(
        &mut self,
        op: Unary,
        x: Wire<Vector>,
    ) -> (r: Wire<Vector>)
        requires
            old(self).ordered(),
            old(self).has(x),
        ensures
            final(self).added(*old(self), r, unary(op, x@)),
    {
        self.node1(Op::Unary(op), x)
    }

    /// A cross-section made from two others.
    pub fn binary(
        &mut self,
        op: Binary,
        x: Wire<Vector>,
        y: Wire<Vector>,
    ) -> (r: Wire<Vector>)
        requires
            old(self).ordered(),
            old(self).has(x),
            old(self).has(y),
        ensures
            final(self).added(*old(self), r, binary(op, x@, y@)),
    {
        self.node2(Op::Binary(op), x, y)
    }

    /// An operator over a trailing window of `x`, on a clock.
    pub fn rolling<K>(
        &mut self,
        op: Rolling,
        window: Window,
        clock: Wire<Pulse>,
        x: Wire<K>,
    ) -> (r: Wire<K>)
        requires
            old(self).ordered(),
            old(self).has(clock),
            old(self).has(x),
        ensures
            final(self).added(*old(self), r, rolling(op, window, clock@, x@)),
    {
        self.node2(Op::Rolling(op, window), clock, x)
    }

    /// A pulse whenever any lane pulses.
    pub fn any(
        &mut self,
        x: Wire<Pulses>,
    ) -> (r: Wire<Pulse>)
        requires
            old(self).ordered(),
            old(self).has(x),
        ensures
            final(self).added(*old(self), r, t1(Op::Any, x@)),
    {
        self.node1(Op::Any, x)
    }

    /// A pulse whenever either clock pulses.
    pub fn or(
        &mut self,
        x: Wire<Pulse>,
        y: Wire<Pulse>,
    ) -> (r: Wire<Pulse>)
        requires
            old(self).ordered(),
            old(self).has(x),
            old(self).has(y),
        ensures
            final(self).added(*old(self), r, t2(Op::Or, x@, y@)),
    {
        self.node2(Op::Or, x, y)
    }

    /// The values of the lanes that pulsed by `clock`, missing elsewhere.
    pub fn collect(
        &mut self,
        signals: Wire<Pulses>,
        x: Wire<Vector>,
        clock: Wire<Pulse>,
    ) -> (r: Wire<Vector>)
        requires
            old(self).ordered(),
            old(self).has(signals),
            old(self).has(x),
            old(self).has(clock),
        ensures
            final(self).added(*old(self), r, t3(Op::Collect, signals@, x@, clock@)),
    {
        self.node3(Op::Collect, signals, x, clock)
    }

    /// The values as whole numbers.
    pub fn whole(
        &mut self,
        x: Wire<Vector>,
    ) -> (r: Wire<Integers>)
        requires
            old(self).ordered(),
            old(self).has(x),
        ensures
            final(self).added(*old(self), r, t1(Op::Whole, x@)),
    {
        self.node1(Op::Whole, x)
    }

    /// Column `c` of a panel.
    pub fn column(
        &mut self,
        c: usize,
        x: Wire<Matrix>,
    ) -> (r: Wire<Vector>)
        requires
            old(self).ordered(),
            old(self).has(x),
        ensures
            final(self).added(*old(self), r, t1(Op::Column(c), x@)),
    {
        self.node1(Op::Column(c), x)
    }

    /// The return on wide days less the return on narrow days, over a panel of
    /// amplitudes and returns.
    pub fn range_momentum(
        &mut self,
        window: usize,
        clock: Wire<Pulse>,
        x: Wire<Matrix>,
    ) -> (r: Wire<Vector>)
        requires
            old(self).ordered(),
            old(self).has(clock),
            old(self).has(x),
        ensures
            final(self).added(*old(self), r, t2(Op::RangeMomentum(window), clock@, x@)),
    {
        self.node2(Op::RangeMomentum(window), clock, x)
    }

    /// The holder-cost distribution, over a panel of prices and turnovers.
    pub fn chip_distribution(
        &mut self,
        window: usize,
        clock: Wire<Pulse>,
        x: Wire<Matrix>,
    ) -> (r: Wire<Matrix>)
        requires
            old(self).ordered(),
            old(self).has(clock),
            old(self).has(x),
        ensures
            final(self).added(*old(self), r, t2(Op::ChipDistribution(window), clock@, x@)),
    {
        self.node2(Op::ChipDistribution(window), clock, x)
    }

    /// The cap weights of the `k` greatest lanes, on a clock.
    pub fn top_by_cap(
        &mut self,
        k: usize,
        clock: Wire<Pulse>,
        caps: Wire<Vector>,
    ) -> (r: Wire<Vector>)
        requires
            old(self).ordered(),
            old(self).has(clock),
            old(self).has(caps),
        ensures
            final(self).added(*old(self), r, t2(Op::TopByCap(k), clock@, caps@)),
    {
        self.node2(Op::TopByCap(k), clock, caps)
    }

    /// A readout of a book or a feature alone, on a clock.
    pub fn readout(
        &mut self,
        metric: Metric,
        clock: Wire<Pulse>,
        x: Wire<Vector>,
    ) -> (r: Wire<Scalar>)
        requires
            old(self).ordered(),
            old(self).has(clock),
            old(self).has(x),
        ensures
            final(self).added(*old(self), r, t2(Op::Metric(metric), clock@, x@)),
    {
        self.node2(Op::Metric(metric), clock, x)
    }

    /// A readout of a book or a feature against realized returns, on a clock.
    pub fn score(
        &mut self,
        metric: Metric,
        clock: Wire<Pulse>,
        x: Wire<Vector>,
        realized: Wire<Vector>,
    ) -> (r: Wire<Scalar>)
        requires
            old(self).ordered(),
            old(self).has(clock),
            old(self).has(x),
            old(self).has(realized),
        ensures
            final(self).added(*old(self), r, t3(Op::Metric(metric), clock@, x@, realized@)),
    {
        self.node3(Op::Metric(metric), clock, x, realized)
    }

    /// The sum of the finite lanes.
    pub fn sum_finite(
        &mut self,
        x: Wire<Vector>,
    ) -> (r: Wire<Scalar>)
        requires
            old(self).ordered(),
            old(self).has(x),
        ensures
            final(self).added(*old(self), r, t1(Op::SumFinite, x@)),
    {
        self.node1(Op::SumFinite, x)
    }

    /// The quotient of two numbers.
    pub fn ratio(
        &mut self,
        x: Wire<Scalar>,
        y: Wire<Scalar>,
    ) -> (r: Wire<Scalar>)
        requires
            old(self).ordered(),
            old(self).has(x),
            old(self).has(y),
        ensures
            final(self).added(*old(self), r, t2(Op::Ratio, x@, y@)),
    {
        self.node2(Op::Ratio, x, y)
    }

    /// Everything `x` carried, on a clock.
    pub fn record<K>(
        &mut self,
        clock: Wire<Pulse>,
        x: Wire<K>,
    ) -> (r: Wire<Series>)
        requires
            old(self).ordered(),
            old(self).has(clock),
            old(self).has(x),
        ensures
            final(self).added(*old(self), r, t2(Op::Record, clock@, x@)),
    {
        self.node2(Op::Record, clock, x)
    }

    /// Output `k` of an operator that has several.
    pub(crate) fn output<K>(&mut self, k: usize, x: Wire<Bundle>) -> (r: Wire<K>)
        requires
            old(self).ordered(),
            old(self).has(x),
        ensures
            final(self).added(*old(self), r, port(k as int, x@)),
    {
        self.node1(Op::Port(k), x)
    }

    /// A pulse at each of the instants.
    pub fn ticks(&mut self, instants: Vec<Instant>) -> (r: Wire<Pulse>)
        requires
            old(self).ordered(),
        ensures
            final(self).added(*old(self), r, ticks(instants@)),
    {
        let ghost none = Seq::<Term>::empty();
        self.node(Op::Ticks, Payload::Instants(instants), Vec::new(), Ghost(none))
    }

    /// A constant cross-section.
    pub fn full(&mut self, lanes: usize, value: Double) -> (r: Wire<Vector>)
        requires
            old(self).ordered(),
        ensures
            final(self).added(*old(self), r, plain(Op::Full(lanes, value), Seq::empty())),
    {
        let ghost none = Seq::<Term>::empty();
        self.node(Op::Full(lanes, value), Payload::Nothing, Vec::new(), Ghost(none))
    }

    /// A panel without columns.
    pub fn no_columns(&mut self, lanes: usize) -> (r: Wire<Matrix>)
        requires
            old(self).ordered(),
        ensures
            final(self).added(*old(self), r, plain(Op::NoColumns(lanes), Seq::empty())),
    {
        let ghost none = Seq::<Term>::empty();
        self.node(Op::NoColumns(lanes), Payload::Nothing, Vec::new(), Ghost(none))
    }

    /// A constant cross-section that is one where its flag is set and zero
    /// elsewhere.
    pub fn indicator(&mut self, flags: Vec<bool>) -> (r: Wire<Vector>)
        requires
            old(self).ordered(),
        ensures
            final(self).added(*old(self), r, indicator(flags@)),
    {
        let ghost none = Seq::<Term>::empty();
        self.node(Op::Indicator, Payload::Flags(flags), Vec::new(), Ghost(none))
    }

    /// Cross-sections side by side as the columns of a panel.
    pub fn stack(&mut self, columns: &Vec<Wire<Vector>>) -> (r: Wire<Matrix>)
        requires
            old(self).ordered(),
            forall|i: int| 0 <= i < columns@.len() ==> old(self).has(#[trigger] columns@[i]),
        ensures
            final(self).added(*old(self), r, plain(Op::Stack, terms(columns@))),
    {
        let mut inputs: Vec<usize> = Vec::new();
        for k in 0..columns.len()
            invariant
                inputs@.len() == k,
                forall|j: int| 0 <= j < k ==> inputs@[j] == (#[trigger] columns@[j]).at(),
        {
            inputs.push(columns[k].index());
        }
        let ghost given = terms(columns@);
        proof {
            assert forall|k: int| 0 <= k < given.len() implies old(self).binds(
                (#[trigger] inputs@[k]) as int,
                given[k],
            ) by {
                assert(old(self).has(columns@[k]));
            }
        }
        self.node(Op::Stack, Payload::Nothing, inputs, Ghost(given))
    }

    /// Year-to-date report values brought to a per-year scale, on the report
    /// signals of their lanes.
    pub fn annualize(
        &mut self,
        signals: Wire<Pulses>,
        x: Wire<Vector>,
        year: Wire<Integers>,
        day: Wire<Integers>,
    ) -> (r: Wire<Vector>)
        requires
            old(self).ordered(),
            old(self).has(signals),
            old(self).has(x),
            old(self).has(year),
            old(self).has(day),
        ensures
            final(self).added(
                *old(self),
                r,
                plain(Op::Annualize, seq![signals@, x@, year@, day@]),
            ),
    {
        let ghost given = seq![signals@, x@, year@, day@];
        let inputs = vec![signals.index(), x.index(), year.index(), day.index()];
        self.node(Op::Annualize, Payload::Nothing, inputs, Ghost(given))
    }

    /// Forward adjustment of prices for dividends: the cumulative multipliers
    /// and the adjusted prices.
    pub fn forward_adjust(
        &mut self,
        signals: Wire<Pulses>,
        price: Wire<Vector>,
        div_signals: Wire<Pulses>,
        shares: Wire<Vector>,
        cash: Wire<Vector>,
    ) -> (r: (Wire<Vector>, Wire<Vector>))
        requires
            old(self).ordered(),
            old(self).has(signals),
            old(self).has(price),
            old(self).has(div_signals),
            old(self).has(shares),
            old(self).has(cash),
        ensures
            final(self).grown(*old(self)),
            final(self).has(r.0),
            final(self).has(r.1),
            ({
                let t = plain(
                    Op::ForwardAdjust,
                    seq![signals@, price@, div_signals@, shares@, cash@],
                );
                r.0@ == port(0, t) && r.1@ == port(1, t)
            }),
    {
        let ghost given = seq![signals@, price@, div_signals@, shares@, cash@];
        let inputs = vec![
            signals.index(),
            price.index(),
            div_signals.index(),
            shares.index(),
            cash.index(),
        ];
        let both: Wire<Bundle> = self.node(
            Op::ForwardAdjust,
            Payload::Nothing,
            inputs,
            Ghost(given),
        );
        let multipliers = self.output(0, both);
        let adjusted = self.output(1, both);
        (multipliers, adjusted)
    }

    /// The synthetic quote book: listing flags, bids and asks.
    pub fn quotes(
        &mut self,
        limit: Double,
        tick: Double,
        delist_days: u32,
        signals: Wire<Pulses>,
        closes: Wire<Vector>,
    ) -> (r: (Wire<Flags>, Wire<Vector>, Wire<Vector>))
        requires
            old(self).ordered(),
            old(self).has(signals),
            old(self).has(closes),
        ensures
            final(self).grown(*old(self)),
            final(self).has(r.0),
            final(self).has(r.1),
            final(self).has(r.2),
            ({
                let t = t2(Op::Quotes { limit, tick, delist_days }, signals@, closes@);
                r.0@ == port(0, t) && r.1@ == port(1, t) && r.2@ == port(2, t)
            }),
    {
        let book: Wire<Bundle> = self.node2(
            Op::Quotes { limit, tick, delist_days },
            signals,
            closes,
        );
        let flags = self.output(0, book);
        let bids = self.output(1, book);
        let asks = self.output(2, book);
        (flags, bids, asks)
    }

    /// An operator implemented by a Python module.
    pub(crate) fn module<K>(
        &mut self,
        name: &str,
        params: Vec<(String, Param)>,
        inputs: Vec<usize>,
        Ghost(given): Ghost<Seq<Term>>,
    ) -> (r: Wire<K>)
        requires
            old(self).ordered(),
            inputs@.len() == given.len(),
            forall|k: int|
                0 <= k < given.len() ==> old(self).binds(
                    (#[trigger] inputs@[k]) as int,
                    given[k],
                ),
        ensures
            final(self).added(*old(self), r, module(name@, params_view(params@), given)),
    {
        self.node(
            Op::Module,
            Payload::Module { name: name.to_string(), params },
            inputs,
            Ghost(given),
        )
    }
}

} // verus!
