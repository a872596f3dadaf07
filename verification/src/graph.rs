//! The computation graph a run is planned as.
//!
//! A [`Builder`] collects the nodes of a graph: each names one operator of
//! the engine, its constants, and the earlier nodes it reads. What a node
//! computes is its [`Term`]: the operator applied to the terms of its inputs,
//! down to the sources. A [`Wire`] is a handle to a node that knows its term,
//! so a contract can say what a wire carries without saying where in the
//! graph its node stands.
use core::marker::PhantomData;
use vstd::prelude::*;

use crate::double::Double;
use crate::time::{Duration, Instant};

verus! {

/// How far a rolling operator looks back.
#[derive(Clone, Copy, Debug, PartialEq, Eq, Structural)]
pub enum Window {
    /// A number of ticks of the operator's clock.
    Count(usize),
    /// A span of time.
    Span(Duration),
}

/// Operators that turn a cross-section into another.
#[derive(Clone, Copy, Debug, PartialEq, Eq, Structural)]
pub enum Unary {
    /// `-x`.
    Neg,
    /// The natural logarithm.
    Ln,
    /// `|x|`.
    Abs,
    /// `x` times a constant.
    Scale(Double),
    /// A constant in the place of a missing value.
    FillMissing(Double),
    /// A missing value in the place of one that is not positive.
    MaskNonPositive,
    /// The sign of `x`.
    Signum,
    /// `x` held between two bounds.
    Clamp(Double, Double),
    /// The tails of the cross-section, a fraction of it on either side, held
    /// at their inner bounds.
    Winsorize(Double),
    /// The mean of the finite values in the place of the missing ones.
    Impute,
    /// Mean zero and standard deviation one.
    Standardize,
    /// Mean zero and standard deviation one, zero where that is undefined.
    StandardizeOrZero,
    /// The rank in the cross-section, from zero to one.
    Percentile,
    /// Mean zero.
    Demean,
    /// Scaled down to a sum of absolute values within a bound.
    ScaleDown(Double),
    /// The cube, made orthogonal to the values.
    NonlinearSize,
}

/// Operators that join two cross-sections.
#[derive(Clone, Copy, Debug, PartialEq, Eq, Structural)]
pub enum Binary {
    Add,
    Sub,
    Mul,
    Div,
    /// The mean of the first weighted by the second, in every lane.
    MarketReturn,
}

/// Operators over a trailing window of a clocked stream.
#[derive(Clone, Copy, Debug, PartialEq, Eq, Structural)]
pub enum Rolling {
    /// The mean, missing below a count of samples.
    Mean(usize),
    /// The sum, missing below a count of samples.
    Sum(usize),
    /// The standard deviation, missing below a count of samples.
    StdDev(usize),
    /// The change from the start of the window.
    Diff,
    /// The relative change from the start of the window.
    PctChange,
    /// The value at the start of the window.
    Lag,
}

/// Readouts of a book of weights, or of a feature, on a clock.
#[derive(Clone, Copy, Debug, PartialEq, Eq, Structural)]
pub enum Metric {
    /// The correlation of a feature with the returns.
    Ic,
    /// The rank correlation of a feature with the returns.
    RankIc,
    /// The return of the book over the period.
    PeriodReturn,
    /// The effective number of positions.
    Breadth,
    /// The sum of the short weights.
    ShortExposure,
    /// The sum of the absolute weights.
    GrossExposure,
    /// The accumulated change of the weights.
    Turnover,
}

/// What a simulated trader charges and starts from.
#[derive(Clone, Copy, Debug, PartialEq, Eq, Structural)]
pub struct TraderParams {
    /// Whether a book fills at the quotes of the next trading day.
    pub delayed: bool,
    pub initial_cash: Double,
    pub fee_base_buy: Double,
    pub fee_base_sell: Double,
    pub fee_rate_buy: Double,
    pub fee_rate_sell: Double,
}

/// An operator of the engine, with its numeric constants.
#[derive(Clone, Copy, Debug, PartialEq, Eq, Structural)]
pub enum Op {
    /// A Parquet panel between two instants, with or without the history
    /// before the first folded in. Port 0 carries the row signals, port
    /// `1 + i` the values of column `i`.
    Parquet { start: Option<Instant>, end: Option<Instant>, prefill: bool },
    /// A CSV panel between two instants, with ports as a Parquet panel's.
    Csv { start: Option<Instant>, end: Option<Instant> },
    /// A pulse at each of a list of instants.
    Ticks,
    /// A constant cross-section of so many lanes.
    Full(usize, Double),
    /// A constant panel of so many lanes and no columns.
    NoColumns(usize),
    /// A constant cross-section: one where a flag is set, zero elsewhere.
    Indicator,
    /// One of the outputs of an operator that has several.
    Port(usize),
    /// A pulse whenever any lane pulses.
    Any,
    /// A pulse whenever either clock pulses.
    Or,
    /// The values of the lanes that pulsed, missing elsewhere.
    Collect,
    /// Whole numbers from floating-point ones.
    Whole,
    Unary(Unary),
    Binary(Binary),
    Rolling(Rolling, Window),
    /// Year-to-date report values brought to a per-year scale.
    Annualize,
    /// Forward adjustment for dividends: the multipliers, then the adjusted
    /// prices.
    ForwardAdjust,
    /// Cross-sections side by side as the columns of a panel.
    Stack,
    /// One column of a panel.
    Column(usize),
    /// An expression over named fields, on a clock, over so many lanes.
    Formula(usize),
    /// The return on wide days less the return on narrow days of a window.
    RangeMomentum(usize),
    /// The holder-cost distribution over a window, one row of statistics per
    /// lane.
    ChipDistribution(usize),
    /// The cap weights of the greatest lanes, on a clock.
    TopByCap(usize),
    /// The synthetic quote book: listing flags, bids and asks.
    Quotes { limit: Double, tick: Double, delist_days: u32 },
    Metric(Metric),
    /// The sum of the finite lanes.
    SumFinite,
    /// A quotient of two numbers.
    Ratio,
    /// A frictionless trader: positions, cash and net asset value.
    Benchmark { delayed: bool, initial_cash: Double },
    /// A trader that pays fees: positions, cash and net asset value.
    Fractional(TraderParams),
    /// Everything a stream carried, on a clock.
    Record,
    /// An operator implemented by a Python module.
    Module,
}

/// A setting that the engine's own Python modules know by a code.
#[derive(Clone, Copy, Debug, PartialEq, Eq, Structural)]
pub enum Setting {
    /// Shrinkage of a covariance towards a single-index model.
    SingleIndexTarget,
    /// Least variance less expected return.
    MinMeanVariance,
}

/// A named constant handed to a Python module.
#[derive(Debug)]
pub enum Param {
    Count(usize),
    Number(Double),
    Flag(bool),
    Text(String),
    Setting(Setting),
    Nothing,
}

/// The constants of a node that are not numbers.
#[derive(Debug)]
pub enum Payload {
    Nothing,
    /// A file, its time column, its axis column and its value columns.
    Table { file: String, time: String, axis: String, columns: Vec<String> },
    Instants(Vec<Instant>),
    Flags(Vec<bool>),
    /// An expression and the names of the fields it may read.
    Formula { source: String, fields: Vec<String> },
    /// A Python module and its parameters.
    Module { name: String, params: Vec<(String, Param)> },
}

/// A parameter, with its text as characters.
pub ghost enum ParamView {
    Count(usize),
    Number(Double),
    Flag(bool),
    Text(Seq<char>),
    Setting(Setting),
    Nothing,
}

/// A payload, with its texts as characters.
pub ghost enum PayloadView {
    Nothing,
    Table { file: Seq<char>, time: Seq<char>, axis: Seq<char>, columns: Seq<Seq<char>> },
    Instants(Seq<Instant>),
    Flags(Seq<bool>),
    Formula { source: Seq<char>, fields: Seq<Seq<char>> },
    Module { name: Seq<char>, params: Seq<(Seq<char>, ParamView)> },
}

/// The characters of each text.
pub open spec fn texts(v: Seq<String>) -> Seq<Seq<char>> {
    v.map_values(|s: String| s@)
}

impl View for Param {
    type V = ParamView;

    open spec fn view(&self) -> ParamView {
        match self {
            Param::Count(n) => ParamView::Count(*n),
            Param::Number(x) => ParamView::Number(*x),
            Param::Flag(f) => ParamView::Flag(*f),
            Param::Text(s) => ParamView::Text(s@),
            Param::Setting(c) => ParamView::Setting(*c),
            Param::Nothing => ParamView::Nothing,
        }
    }
}

/// The names and values of parameters.
pub open spec fn params_view(v: Seq<(String, Param)>) -> Seq<(Seq<char>, ParamView)> {
    v.map_values(|p: (String, Param)| (p.0@, p.1@))
}

impl View for Payload {
    type V = PayloadView;

    open spec fn view(&self) -> PayloadView {
        match self {
            Payload::Nothing => PayloadView::Nothing,
            Payload::Table { file, time, axis, columns } => PayloadView::Table {
                file: file@,
                time: time@,
                axis: axis@,
                columns: texts(columns@),
            },
            Payload::Instants(v) => PayloadView::Instants(v@),
            Payload::Flags(v) => PayloadView::Flags(v@),
            Payload::Formula { source, fields } => PayloadView::Formula {
                source: source@,
                fields: texts(fields@),
            },
            Payload::Module { name, params } => PayloadView::Module {
                name: name@,
                params: params_view(params@),
            },
        }
    }
}

/// One node of a graph: an operator, its constants and the nodes it reads.
#[derive(Debug)]
pub struct Node {
    pub op: Op,
    pub data: Payload,
    pub inputs: Vec<usize>,
}

/// What a node computes: an operator applied to what its inputs compute.
pub ghost struct Term {
    pub op: Op,
    pub data: PayloadView,
    pub inputs: Seq<Term>,
}

/// A clock: one pulse.
#[derive(Clone, Copy, Debug)]
pub struct Pulse;

/// One pulse per lane.
#[derive(Clone, Copy, Debug)]
pub struct Pulses;

/// A number.
#[derive(Clone, Copy, Debug)]
pub struct Scalar;

/// A cross-section of numbers.
#[derive(Clone, Copy, Debug)]
pub struct Vector;

/// A cross-section of whole numbers.
#[derive(Clone, Copy, Debug)]
pub struct Integers;

/// A cross-section of flags.
#[derive(Clone, Copy, Debug)]
pub struct Flags;

/// A panel: a cross-section of rows.
#[derive(Clone, Copy, Debug)]
pub struct Matrix;

/// The outputs of an operator that has several.
#[derive(Clone, Copy, Debug)]
pub struct Bundle;

/// A recorded stream.
#[derive(Clone, Copy, Debug)]
pub struct Series;

/// A handle to a node that carries values of kind `K`.
pub struct Wire<K> {
    index: usize,
    term: Ghost<Term>,
    kind: PhantomData<K>,
}

impl<K> Copy for Wire<K> {

}

impl<K> Clone for Wire<K> {
    fn clone(&self) -> (r: Self)
        ensures
            r == *self,
    {
        *self
    }
}

impl<K> View for Wire<K> {
    type V = Term;

    closed spec fn view(&self) -> Term {
        self.term@
    }
}

impl<K> Wire<K> {
    /// The place of the wire's node in its graph.
    pub closed spec fn at(self) -> int {
        self.index as int
    }

    /// The place of the wire's node in its graph.
    pub fn index(self) -> (r: usize)
        ensures
            r == self.at(),
    {
        self.index
    }
}

/// Whether node `i` computes `t`.
pub open spec fn computes(nodes: Seq<Node>, i: int, t: Term) -> bool
    decreases i,
{
    &&& 0 <= i < nodes.len()
    &&& nodes[i].op == t.op
    &&& nodes[i].data@ == t.data
    &&& nodes[i].inputs@.len() == t.inputs.len()
    &&& forall|k: int|
        0 <= k < t.inputs.len() ==> (#[trigger] nodes[i].inputs@[k]) < i && computes(
            nodes,
            nodes[i].inputs@[k] as int,
            t.inputs[k],
        )
}

/// Nodes keep computing what they do when others are added behind them.
proof fn computes_in_longer(a: Seq<Node>, b: Seq<Node>, i: int, t: Term)
    requires
        a.len() <= b.len(),
        forall|j: int| 0 <= j < a.len() ==> #[trigger] a[j] == b[j],
        computes(a, i, t),
    ensures
        computes(b, i, t),
    decreases i,
{
    assert(a[i] == b[i]);
    assert forall|k: int| 0 <= k < t.inputs.len() implies (#[trigger] b[i].inputs@[k]) < i
        && computes(b, b[i].inputs@[k] as int, t.inputs[k]) by {
        assert(a[i].inputs@[k] < i);
        computes_in_longer(a, b, a[i].inputs@[k] as int, t.inputs[k]);
    }
}

/// A node computes one thing only.
pub proof fn a_node_computes_one_term(nodes: Seq<Node>, i: int, s: Term, t: Term)
    requires
        computes(nodes, i, s),
        computes(nodes, i, t),
    ensures
        s == t,
    decreases i,
{
    assert forall|k: int| 0 <= k < s.inputs.len() implies s.inputs[k] == t.inputs[k] by {
        assert(nodes[i].inputs@[k] < i);
        a_node_computes_one_term(nodes, nodes[i].inputs@[k] as int, s.inputs[k], t.inputs[k]);
    }
    assert(s.inputs =~= t.inputs);
}

/// A term without constants beside the operator's own.
pub open spec fn plain(op: Op, inputs: Seq<Term>) -> Term {
    Term { op, data: PayloadView::Nothing, inputs }
}

/// A term over one input.
pub open spec fn t1(op: Op, x: Term) -> Term {
    plain(op, seq![x])
}

/// A term over two inputs.
pub open spec fn t2(op: Op, x: Term, y: Term) -> Term {
    plain(op, seq![x, y])
}

/// A term over three inputs.
pub open spec fn t3(op: Op, x: Term, y: Term, z: Term) -> Term {
    plain(op, seq![x, y, z])
}

/// `op(x)`.
pub open spec fn unary(op: Unary, x: Term) -> Term {
    t1(Op::Unary(op), x)
}

/// `op(x, y)`.
pub open spec fn binary(op: Binary, x: Term, y: Term) -> Term {
    t2(Op::Binary(op), x, y)
}

/// `op` over a trailing window of `x`, on a clock.
pub open spec fn rolling(op: Rolling, window: Window, clock: Term, x: Term) -> Term {
    t2(Op::Rolling(op, window), clock, x)
}

/// Output `k` of an operator that has several.
pub open spec fn port(k: int, x: Term) -> Term {
    t1(Op::Port(k as usize), x)
}

/// The terms of a list of wires.
pub open spec fn terms<K>(v: Seq<Wire<K>>) -> Seq<Term> {
    v.map_values(|w: Wire<K>| w@)
}

/// A graph under construction.
pub struct Builder {
    nodes: Vec<Node>,
    axis: Vec<String>,
}

impl Builder {
    /// The nodes of the graph.
    pub closed spec fn nodes(self) -> Seq<Node> {
        self.nodes@
    }

    /// The labels of the cross-section's lanes.
    pub closed spec fn axis(self) -> Seq<String> {
        self.axis@
    }

    /// Whether node `i` computes `t`.
    #[verifier::opaque]
    pub open spec fn binds(self, i: int, t: Term) -> bool {
        computes(self.nodes(), i, t)
    }

    /// Whether the wire belongs to this graph: its node computes its term.
    pub open spec fn has<K>(self, w: Wire<K>) -> bool {
        self.binds(w.at(), w@)
    }

    /// Whether this graph keeps all that `before` had: its axis, and what
    /// each of its nodes computes.
    pub open spec fn keeps(self, before: Builder) -> bool {
        &&& self.axis() == before.axis()
        &&& self.nodes().len() >= before.nodes().len()
        &&& forall|i: int, t: Term| before.binds(i, t) ==> #[trigger] self.binds(i, t)
    }

    /// Whether every node reads only nodes before it.
    pub open spec fn ordered(self) -> bool {
        forall|i: int, k: int|
            #![trigger self.nodes()[i].inputs@[k]]
            0 <= i < self.nodes().len() && 0 <= k < self.nodes()[i].inputs@.len()
                ==> self.nodes()[i].inputs@[k] < i
    }

    /// Whether this graph is `before` with one node added, whose wire is `r`
    /// and which computes `t`.
    pub open spec fn added<K>(self, before: Builder, r: Wire<K>, t: Term) -> bool {
        &&& self.ordered()
        &&& self.keeps(before)
        &&& self.nodes().len() == before.nodes().len() + 1
        &&& r.at() == before.nodes().len()
        &&& r@ == t
        &&& self.has(r)
    }

    /// Whether this graph is `before` with nodes added.
    pub open spec fn grown(self, before: Builder) -> bool {
        self.ordered() && self.keeps(before)
    }

    /// An empty graph over an axis.
    pub fn new(axis: Vec<String>) -> (r: Builder)
        ensures
            r.nodes() == Seq::<Node>::empty(),
            r.axis() == axis@,
            r.ordered(),
    {
        Builder { nodes: Vec::new(), axis }
    }

    /// A wire of the graph points at one of its nodes.
    pub proof fn wires_point_inside<K>(self, w: Wire<K>)
        requires
            self.has(w),
        ensures
            0 <= w.at() < self.nodes().len(),
    {
        reveal(Builder::binds);
    }

    /// The nodes of the graph, each after those it reads.
    pub fn node_list(&self) -> (r: &Vec<Node>)
        ensures
            r@ == self.nodes(),
    {
        &self.nodes
    }

    /// The labels of the cross-section's lanes.
    pub fn axis_labels(&self) -> (r: &Vec<String>)
        ensures
            r@ == self.axis(),
    {
        &self.axis
    }

    /// The number of nodes.
    pub fn size(&self) -> (r: usize)
        ensures
            r == self.nodes().len(),
    {
        self.nodes.len()
    }

    /// Adds a node behind the others.
    pub(crate) fn node<K>(
        &mut self,
        op: Op,
        data: Payload,
        inputs: Vec<usize>,
        Ghost(given): Ghost<Seq<Term>>,
    ) -> (r: Wire<K>)
        requires
            old(self).ordered(),
            inputs@.len() == given.len(),
            forall|k: int|
                0 <= k < given.len() ==> old(self).binds(
                    (#[trigger] inputs@[k]) as int,
                    given[k],
                ),
        ensures
            final(self).added(*old(self), r, (Term { op, data: data@, inputs: given })),
    {
        let index: usize = self.nodes.len();
        let ghost t = Term { op, data: data@, inputs: given };
        let ghost before = *self;
        self.nodes.push(Node { op, data, inputs });
        proof {
            reveal(Builder::binds);
            assert forall|i: int, s: Term| before.binds(i, s) implies #[trigger] self.binds(
                i,
                s,
            ) by {
                computes_in_longer(before.nodes(), self.nodes(), i, s);
            }
            assert forall|k: int| 0 <= k < given.len() implies (#[trigger] inputs@[k]) < index
                && computes(self.nodes(), inputs@[k] as int, given[k]) by {
                assert(before.binds(inputs@[k] as int, given[k]));
                computes_in_longer(before.nodes(), self.nodes(), inputs@[k] as int, given[k]);
            }
            assert(computes(self.nodes(), index as int, t));
        }
        Wire { index, term: Ghost(t), kind: PhantomData }
    }

    /// Adds a node over one input.
    pub(crate) fn node1<A, K>(&mut self, op: Op, x: Wire<A>) -> (r: Wire<K>)
        requires
            old(self).ordered(),
            old(self).has(x),
        ensures
            final(self).added(*old(self), r, t1(op, x@)),
    {
        let ghost given = seq![x@];
        self.node(op, Payload::Nothing, vec![x.index], Ghost(given))
    }

    /// Adds a node over two inputs.
    pub(crate) fn node2<A, B, K>(&mut self, op: Op, x: Wire<A>, y: Wire<B>) -> (r: Wire<K>)
        requires
            old(self).ordered(),
            old(self).has(x),
            old(self).has(y),
        ensures
            final(self).added(*old(self), r, t2(op, x@, y@)),
    {
        let ghost given = seq![x@, y@];
        self.node(op, Payload::Nothing, vec![x.index, y.index], Ghost(given))
    }

    /// Adds a node over three inputs.
    pub(crate) fn node3<A, B, C, K>(
        &mut self,
        op: Op,
        x: Wire<A>,
        y: Wire<B>,
        z: Wire<C>,
    ) -> (r: Wire<K>)
        requires
            old(self).ordered(),
            old(self).has(x),
            old(self).has(y),
            old(self).has(z),
        ensures
            final(self).added(*old(self), r, t3(op, x@, y@, z@)),
    {
        let ghost given = seq![x@, y@, z@];
        self.node(op, Payload::Nothing, vec![x.index, y.index, z.index], Ghost(given))
    }
}

} // verus!
