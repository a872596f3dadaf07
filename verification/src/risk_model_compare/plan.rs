//! The plan of the comparison of risk models.
//!
//! Each variant predicts as it would inside a strategy, but its prediction
//! feeds the closed-form book of least variance and a set of scoring
//! operators. Every scored port passes through a one-tick lag first, so a day
//! is never scored against a prediction that has already trained on its
//! return.
use vstd::prelude::*;

use crate::data::{MarketData, MarketView};
use crate::double::Double;
use crate::features::needs::{has_both, note, note_risk, ready_for, risk_fields};
use crate::features::panels::{Finish, Panels, build_features, given};
use crate::features::sets::AlphaFeatureSet;
use crate::graph::{
    Builder, Bundle, Matrix, Metric, Op, Param, ParamView, Pulse, Rolling, Scalar, Series, Term,
    Unary, Vector, Window, Wire, params_view, port, rolling, t2, t3, texts, unary,
};
use crate::ops::{module, param, ticks};
use crate::plans::{PlanError, examine, feasible, infeasible, universe_size};
use crate::risk_model_compare::args::{Args, Variant, VariantView, over_models, views};
use crate::time::Instant;
use crate::universe::{build_cap_weighted_universe, universe_of};
use crate::graph::PayloadView;
use crate::meaning::{
    Run, asks, cap_weight, cross, group_values, is_late, is_relative_change, is_told,
    relative_changes_are_told, value, zero_is_nothing,
};
use crate::universe::{circulating_cap, the_universe_weighs_circulating_caps};

verus! {

/// The fields of the universe.
pub const UNIVERSE_FIELDS: [&'static str; 1] = ["shares.circulating"];

/// The number of metrics that a variant is scored by.
pub const METRICS: usize = 7;

/// The panel fields that the comparison reads.
pub open spec fn fields_read(args: Args) -> Seq<&'static str> {
    risk_fields(args.risk_feature_sets@) + UNIVERSE_FIELDS@
}

/// The size of the tradable universe.
pub open spec fn tradable(args: Args, m: MarketView) -> usize {
    universe_size(args.universe_size, m.n)
}

/// The weights of the cap-weighted index, on the rebalance calendar.
pub open spec fn index_weights(args: Args, m: MarketView, instants: Seq<Instant>) -> Term {
    universe_of(
        ticks(instants),
        m.close,
        m.field("shares.circulating"@),
        tradable(args, m),
    )
}

/// The realized returns.
pub open spec fn daily_returns(m: MarketView) -> Term {
    rolling(Rolling::PctChange, Window::Count(1), m.daily, m.adj_close)
}

/// The scoring clock: trading days and rebalances alike.
pub open spec fn score_clock(m: MarketView, instants: Seq<Instant>) -> Term {
    t2(Op::Or, m.daily, ticks(instants))
}

/// What a port carried one tick of the scoring clock ago.
pub open spec fn lagged(m: MarketView, instants: Seq<Instant>, x: Term) -> Term {
    rolling(Rolling::Lag, Window::Count(1), score_clock(m, instants), x)
}

/// The parameters of a risk model. The rank, the window and the target are
/// the shrinkage model's alone, and so is the label, which is given when the
/// run is verbose.
pub open spec fn model_params(args: Args, k: usize, v: VariantView) -> Seq<(Seq<char>, ParamView)> {
    let common = seq![
        ("universe_size"@, ParamView::Count(k)),
        ("target_offset"@, ParamView::Count(1)),
        ("min_periods"@, ParamView::Count(args.min_periods)),
        ("covariance_halflife"@, ParamView::Number(v.covariance_halflife)),
        ("specific_halflife"@, ParamView::Number(v.specific_halflife)),
    ];
    match v.target {
        None => common,
        Some(target) => {
            let own = common + seq![
                ("rank"@, ParamView::Count(v.rank)),
                ("window"@, ParamView::Count(v.window)),
                ("target"@, ParamView::Text(target@)),
            ];
            if args.verbose {
                own.push(("label"@, ParamView::Text(v.label)))
            } else {
                own
            }
        },
    }
}

/// The prediction of a variant: exposures, factor covariances and specific
/// variances, on three ports.
pub open spec fn prediction(
    args: Args,
    m: MarketView,
    instants: Seq<Instant>,
    v: VariantView,
    risk: Term,
) -> Term {
    module(
        v.module@,
        model_params(args, tradable(args, m), v),
        seq![
            m.daily,
            risk,
            daily_returns(m),
            ticks(instants),
            index_weights(args, m, instants),
        ],
    )
}

/// The book of least variance under a prediction.
pub open spec fn least_variance(
    args: Args,
    m: MarketView,
    instants: Seq<Instant>,
    p: Term,
) -> Term {
    module(
        "portfolio.minimum_variance"@,
        seq![],
        seq![
            ticks(instants),
            index_weights(args, m, instants),
            port(0, p),
            port(1, p),
            port(2, p),
        ],
    )
}

/// The book as it is scored: a tick behind, with no positions before the
/// first rebalance sets one.
pub open spec fn scored_book(args: Args, m: MarketView, instants: Seq<Instant>, p: Term) -> Term {
    unary(
        Unary::FillMissing(Double { bits: 0 }),
        lagged(m, instants, least_variance(args, m, instants, p)),
    )
}

/// A readout of a cross-section against a prediction a tick behind.
pub open spec fn readout(
    name: Seq<char>,
    m: MarketView,
    instants: Seq<Instant>,
    x: Term,
    p: Term,
) -> Term {
    module(
        name,
        seq![],
        seq![
            m.daily,
            x,
            lagged(m, instants, port(0, p)),
            lagged(m, instants, port(1, p)),
            lagged(m, instants, port(2, p)),
        ],
    )
}

/// The daily metrics of a prediction: its log-likelihood, the return and the
/// predicted variance of its book of least variance, its mean correlation,
/// its factor share, and the breadth and short share of the book.
pub open spec fn metrics(
    args: Args,
    m: MarketView,
    instants: Seq<Instant>,
    p: Term,
) -> Seq<Term> {
    let universe = lagged(m, instants, index_weights(args, m, instants));
    let w = scored_book(args, m, instants, p);
    seq![
        module(
            "metric.log_likelihood"@,
            seq![],
            seq![
                m.daily,
                daily_returns(m),
                universe,
                lagged(m, instants, port(0, p)),
                lagged(m, instants, port(1, p)),
                lagged(m, instants, port(2, p)),
            ],
        ),
        t3(Op::Metric(Metric::PeriodReturn), m.daily, w, daily_returns(m)),
        readout("metric.portfolio_variance"@, m, instants, w, p),
        readout("metric.mean_correlation"@, m, instants, universe, p),
        readout("metric.factor_share"@, m, instants, universe, p),
        t2(Op::Metric(Metric::Breadth), m.daily, w),
        t2(
            Op::Ratio,
            t2(Op::Metric(Metric::ShortExposure), m.daily, w),
            t2(Op::Metric(Metric::GrossExposure), m.daily, w),
        ),
    ]
}

/// The recorded metrics of one variant.
pub struct Scores {
    pub label: String,
    /// The daily series of the metrics.
    pub series: Vec<Wire<Series>>,
}

impl Scores {
    /// Whether these are the scores of a variant.
    pub open spec fn are_of(
        self,
        b: Builder,
        args: Args,
        m: MarketView,
        instants: Seq<Instant>,
        risk: Term,
        v: VariantView,
    ) -> bool {
        let scored = metrics(args, m, instants, prediction(args, m, instants, v, risk));
        &&& self.label@ == v.label
        &&& self.series@.len() == METRICS
        &&& forall|i: int|
            0 <= i < METRICS ==> b.has(#[trigger] self.series@[i]) && self.series@[i]@ == t2(
                Op::Record,
                m.daily,
                scored[i],
            )
    }
}

/// The wired comparison.
pub struct Comparison {
    pub panels: Panels,
    /// The scores of the variants, in their order.
    pub scores: Vec<Scores>,
}

/// The wires that the variants share.
struct Shared {
    k: usize,
    daily: Wire<Pulse>,
    rebalance: Wire<Pulse>,
    clock: Wire<Pulse>,
    universe: Wire<Vector>,
    realized: Wire<Vector>,
    lag_universe: Wire<Vector>,
    panel: Wire<Matrix>,
}

impl Shared {
    spec fn right(
        self,
        b: Builder,
        args: Args,
        m: MarketView,
        instants: Seq<Instant>,
        risk: Term,
    ) -> bool {
        &&& self.k == tradable(args, m)
        &&& b.has(self.daily)
        &&& self.daily@ == m.daily
        &&& b.has(self.rebalance)
        &&& self.rebalance@ == ticks(instants)
        &&& b.has(self.clock)
        &&& self.clock@ == score_clock(m, instants)
        &&& b.has(self.universe)
        &&& self.universe@ == index_weights(args, m, instants)
        &&& b.has(self.realized)
        &&& self.realized@ == daily_returns(m)
        &&& b.has(self.lag_universe)
        &&& self.lag_universe@ == lagged(m, instants, index_weights(args, m, instants))
        &&& b.has(self.panel)
        &&& self.panel@ == risk
    }
}

/// Wires the risk model of a variant.
fn build_model(b: &mut Builder, args: &Args, shared: &Shared, v: &Variant) -> (r: Wire<Bundle>)
    requires
        old(b).ordered(),
        old(b).has(shared.daily),
        old(b).has(shared.panel),
        old(b).has(shared.realized),
        old(b).has(shared.rebalance),
        old(b).has(shared.universe),
    ensures
        final(b).grown(*old(b)),
        final(b).has(r),
        r@ == module(
            v.module@,
            model_params(*args, shared.k, v@),
            seq![
                shared.daily@,
                shared.panel@,
                shared.realized@,
                shared.rebalance@,
                shared.universe@,
            ],
        ),
{
    let mut params = vec![
        param("universe_size", Param::Count(shared.k)),
        param("target_offset", Param::Count(1)),
        param("min_periods", Param::Count(args.min_periods)),
        param("covariance_halflife", Param::Number(v.covariance_halflife)),
        param("specific_halflife", Param::Number(v.specific_halflife)),
    ];
    if let Some(target) = v.target {
        params.push(param("rank", Param::Count(v.rank)));
        params.push(param("window", Param::Count(v.window)));
        params.push(param("target", Param::Text(target.to_string())));
        if args.verbose {
            params.push(param("label", Param::Text(v.label.clone())));
        }
    }
    assert(params_view(params@) =~= model_params(*args, shared.k, v@));
    let inputs = vec![
        shared.daily.index(),
        shared.panel.index(),
        shared.realized.index(),
        shared.rebalance.index(),
        shared.universe.index(),
    ];
    let ghost given = seq![
        shared.daily@,
        shared.panel@,
        shared.realized@,
        shared.rebalance@,
        shared.universe@,
    ];
    b.module(v.module, params, inputs, Ghost(given))
}

/// An operator of a Python module over a clock, a cross-section and a
/// prediction.
fn over_prediction<K>(
    b: &mut Builder,
    name: &str,
    clock: Wire<Pulse>,
    x: Wire<Vector>,
    exposures: Wire<Matrix>,
    covariance: Wire<Matrix>,
    specific: Wire<Vector>,
) -> (r: Wire<K>)
    requires
        old(b).ordered(),
        old(b).has(clock),
        old(b).has(x),
        old(b).has(exposures),
        old(b).has(covariance),
        old(b).has(specific),
    ensures
        final(b).grown(*old(b)),
        final(b).has(r),
        r@ == module(name@, seq![], seq![clock@, x@, exposures@, covariance@, specific@]),
{
    let params: Vec<(String, Param)> = Vec::new();
    assert(params_view(params@) =~= seq![]);
    let inputs = vec![
        clock.index(),
        x.index(),
        exposures.index(),
        covariance.index(),
        specific.index(),
    ];
    let ghost given = seq![clock@, x@, exposures@, covariance@, specific@];
    b.module(name, params, inputs, Ghost(given))
}

/// Wires one variant: its model, its book of least variance, and its scores.
#[verifier::rlimit(40)]
fn build_scores(
    b: &mut Builder,
    args: &Args,
    shared: &Shared,
    v: &Variant,
    Ghost(m): Ghost<MarketView>,
    Ghost(instants): Ghost<Seq<Instant>>,
    Ghost(risk): Ghost<Term>,
) -> (r: Scores)
    requires
        old(b).ordered(),
        shared.right(*old(b), *args, m, instants, risk),
    ensures
        final(b).grown(*old(b)),
        r.are_of(*final(b), *args, m, instants, risk, v@),
{
    let daily = shared.daily;
    let ghost p = prediction(*args, m, instants, v@, risk);
    let predicted = build_model(b, args, shared, v);
    let exposures: Wire<Matrix> = b.output(0, predicted);
    let covariance: Wire<Matrix> = b.output(1, predicted);
    let specific: Wire<Vector> = b.output(2, predicted);
    let weights: Wire<Vector> = over_prediction(
        b,
        "portfolio.minimum_variance",
        shared.rebalance,
        shared.universe,
        exposures,
        covariance,
        specific,
    );
    let one = Window::Count(1);
    let x = b.rolling(Rolling::Lag, one, shared.clock, exposures);
    let f = b.rolling(Rolling::Lag, one, shared.clock, covariance);
    let d = b.rolling(Rolling::Lag, one, shared.clock, specific);
    let behind = b.rolling(Rolling::Lag, one, shared.clock, weights);
    let w = b.unary(Unary::FillMissing(Double { bits: 0 }), behind);
    let params: Vec<(String, Param)> = Vec::new();
    assert(params_view(params@) =~= seq![]);
    let inputs = vec![
        daily.index(),
        shared.realized.index(),
        shared.lag_universe.index(),
        x.index(),
        f.index(),
        d.index(),
    ];
    let ghost given = seq![daily@, shared.realized@, shared.lag_universe@, x@, f@, d@];
    let log_likelihood: Wire<Scalar> = b.module(
        "metric.log_likelihood",
        params,
        inputs,
        Ghost(given),
    );
    let gmv_return = b.score(Metric::PeriodReturn, daily, w, shared.realized);
    let gmv_variance = over_prediction(b, "metric.portfolio_variance", daily, w, x, f, d);
    let lag_universe = shared.lag_universe;
    let mean_correlation = over_prediction(
        b,
        "metric.mean_correlation",
        daily,
        lag_universe,
        x,
        f,
        d,
    );
    let factor_share = over_prediction(b, "metric.factor_share", daily, lag_universe, x, f, d);
    let breadth = b.readout(Metric::Breadth, daily, w);
    let short = b.readout(Metric::ShortExposure, daily, w);
    let gross = b.readout(Metric::GrossExposure, daily, w);
    let short_share = b.ratio(short, gross);
    let ports: Vec<Wire<Scalar>> = vec![
        log_likelihood,
        gmv_return,
        gmv_variance,
        mean_correlation,
        factor_share,
        breadth,
        short_share,
    ];
    let ghost scored = metrics(*args, m, instants, p);
    assert(ports@.len() == METRICS && forall|i: int|
        0 <= i < METRICS ==> b.has(#[trigger] ports@[i]) && ports@[i]@ == scored[i]);
    let mut series: Vec<Wire<Series>> = Vec::new();
    for i in 0..METRICS
        invariant
            ports@.len() == METRICS,
            b.grown(*old(b)),
            b.has(daily),
            daily@ == m.daily,
            forall|j: int|
                0 <= j < METRICS ==> b.has(#[trigger] ports@[j]) && ports@[j]@ == scored[j],
            series@.len() == i,
            forall|j: int|
                0 <= j < i ==> b.has(#[trigger] series@[j]) && series@[j]@ == t2(
                    Op::Record,
                    m.daily,
                    scored[j],
                ),
    {
        let recorded = b.record(daily, ports[i]);
        series.push(recorded);
    }
    Scores { label: v.label.clone(), series }
}

/// Wires the comparison over the market data: the risk panel, the universe,
/// and the model and scores of each variant.
///
/// `instants` is the rebalance calendar and `industries` tags each symbol. A
/// universe of less than two symbols, or a missing field, is refused.
#[verifier::rlimit(40)]
pub fn build_comparison(
    b: &mut Builder,
    args: &Args,
    m: &MarketData,
    industries: &Vec<String>,
    instants: Vec<Instant>,
) -> (r: Result<Comparison, PlanError>)
    requires
        old(b).ordered(),
        m.belongs(*old(b)),
    ensures
        final(b).grown(*old(b)),
        match r {
            Ok(c) => {
                let variants = over_models(*args, args.risk_models@.len() as int);
                &&& feasible(tradable(*args, m@), m@, fields_read(*args))
                &&& c.panels.show(
                    *final(b),
                    m@,
                    Seq::<AlphaFeatureSet>::empty(),
                    args.risk_feature_sets@,
                    texts(industries@),
                    given(None),
                    Finish::Normalize,
                    Finish::Normalize,
                )
                &&& c.scores@.len() == variants.len()
                &&& forall|i: int|
                    0 <= i < variants.len() ==> (#[trigger] c.scores@[i]).are_of(
                        *final(b),
                        *args,
                        m@,
                        instants@,
                        c.panels.risk.panel@,
                        variants[i],
                    )
            },
            Err(e) => infeasible(tradable(*args, m@), m@, fields_read(*args), e),
        },
{
    let k = args.resolved_universe_size(m.n);
    let mut fields: Vec<&'static str> = Vec::new();
    note_risk(&mut fields, &args.risk_feature_sets);
    assert(fields@ =~= risk_fields(args.risk_feature_sets@));
    note(&mut fields, UNIVERSE_FIELDS.as_slice());
    if let Some(e) = examine(k, m, &fields) {
        return Err(e);
    }
    let none: Vec<AlphaFeatureSet> = Vec::new();
    proof {
        has_both(m@, risk_fields(args.risk_feature_sets@), UNIVERSE_FIELDS@);
        ready_for(m@, none@, args.risk_feature_sets@);
        assert(m@.has_field(UNIVERSE_FIELDS@[0]@));
    }
    let ghost ticked = instants@;
    let daily = m.daily;
    let panels = build_features(b, m, &none, &args.risk_feature_sets, industries, None);
    let ghost risk = panels.risk.panel@;
    let ghost shown = *b;
    assert(m.belongs(*b));
    let rebalance = b.ticks(instants);
    let circulating = m.field("shares.circulating");
    let universe = build_cap_weighted_universe(b, m.close, circulating, rebalance, k);
    let realized = b.rolling(Rolling::PctChange, Window::Count(1), daily, m.adj_close);
    let clock = b.or(daily, rebalance);
    let lag_universe = b.rolling(Rolling::Lag, Window::Count(1), clock, universe);
    let shared = Shared {
        k,
        daily,
        rebalance,
        clock,
        universe,
        realized,
        lag_universe,
        panel: panels.risk.panel,
    };
    assert(shared.right(*b, *args, m@, ticked, risk));
    let variants = args.variants();
    let ghost all = over_models(*args, args.risk_models@.len() as int);
    let mut scores: Vec<Scores> = Vec::new();
    for i in 0..variants.len()
        invariant
            views(variants@) == all,
            b.grown(*old(b)),
            b.keeps(shown),
            shared.right(*b, *args, m@, ticked, risk),
            scores@.len() == i,
            forall|j: int|
                0 <= j < i ==> (#[trigger] scores@[j]).are_of(
                    *b,
                    *args,
                    m@,
                    ticked,
                    risk,
                    all[j],
                ),
    {
        assert(all[i as int] == variants@[i as int]@);
        let one = build_scores(
            b,
            args,
            &shared,
            &variants[i],
            Ghost(m@),
            Ghost(ticked),
            Ghost(risk),
        );
        scores.push(one);
    }
    Ok(Comparison { panels, scores })
}

/// A variant is scored on one book of its own: its realized return, its
/// predicted variance, its breadth and both of its exposures are all read of
/// the same weights. These are the weights of least variance under the
/// prediction that is scored, with the exposures, the covariances and the
/// specific variances that it predicts, a tick of the scoring clock late, and
/// zero before there are any.
pub proof fn a_variant_is_scored_on_its_own_book(
    run: Run,
    args: Args,
    m: MarketView,
    instants: Seq<Instant>,
    p: Term,
)
    ensures
        ({
            let scored = metrics(args, m, instants, p);
            let clock = Term {
                op: Op::Or,
                data: PayloadView::Nothing,
                inputs: seq![m.daily, ticks(instants)],
            };
            let realized = scored[1];
            let variance = scored[2];
            let breadth = scored[5];
            let short = scored[6].inputs[0];
            let gross = scored[6].inputs[1];
            let book = realized.inputs[1];
            let late = book.inputs[0];
            let least = late.inputs[1];
            &&& scored.len() == 7
            &&& realized.op == Op::Metric(Metric::PeriodReturn)
            &&& realized.inputs.len() == 3
            &&& asks(variance, "metric.portfolio_variance"@)
            &&& variance.inputs.len() == 5
            &&& variance.inputs[1] == book
            &&& breadth.op == Op::Metric(Metric::Breadth)
            &&& breadth.inputs == seq![m.daily, book]
            &&& scored[6].op == Op::Ratio
            &&& short.op == Op::Metric(Metric::ShortExposure)
            &&& short.inputs == seq![m.daily, book]
            &&& gross.op == Op::Metric(Metric::GrossExposure)
            &&& gross.inputs == seq![m.daily, book]
            &&& asks(least, "portfolio.minimum_variance"@)
            &&& least.inputs.len() == 5
            &&& least.inputs[0] == ticks(instants)
            &&& forall|k: int|
                0 <= k < 3 ==> (#[trigger] least.inputs[2 + k]).op == Op::Port(k as usize)
                    && least.inputs[2 + k].inputs == seq![p]
            &&& is_late(run, 1, clock, least, late)
            &&& forall|lane: int, now: int| #[trigger]
                value(run, book, lane, now) == Some(
                    match value(run, least, lane, (run.back)(clock, now, 1)) {
                        Some(w) => w,
                        None => 0real,
                    },
                )
        }),
{
    broadcast use group_values;

    let scored = metrics(args, m, instants, p);
    let clock = score_clock(m, instants);
    let least = least_variance(args, m, instants, p);
    let late = lagged(m, instants, least);
    let book = scored_book(args, m, instants, p);
    assert(clock.inputs =~= seq![m.daily, ticks(instants)]);
    assert(scored[1].inputs[1] == book);
    assert(book.inputs[0] == late);
    assert(late.inputs[1] == least);
    assert(scored[2].inputs[1] == book);
    relative_changes_are_told(run, 1, clock, least);
    zero_is_nothing();
    assert forall|lane: int, now: int| #[trigger]
        value(run, book, lane, now) == Some(
            match value(run, least, lane, (run.back)(clock, now, 1)) {
                Some(w) => w,
                None => 0real,
            },
        ) by {
        assert(cross(run, late, now)(lane) == value(run, late, lane, now));
    }
}

/// Every metric of a prediction reads it a tick of the scoring clock late:
/// its exposures, its covariances and its specific variances in that order.
/// The likelihood, the mean correlation and the factor share are read over
/// the weights of the index, as late, and the likelihood and the realized
/// return against the fraction by which the adjusted close changed since the
/// trading day before.
pub proof fn metrics_read_the_prediction_late(
    run: Run,
    args: Args,
    m: MarketView,
    instants: Seq<Instant>,
    p: Term,
)
    ensures
        ({
            let scored = metrics(args, m, instants, p);
            let clock = Term {
                op: Op::Or,
                data: PayloadView::Nothing,
                inputs: seq![m.daily, ticks(instants)],
            };
            let likelihood = scored[0];
            let index = likelihood.inputs[2];
            let least = scored[1].inputs[1].inputs[0].inputs[1];
            &&& asks(likelihood, "metric.log_likelihood"@)
            &&& asks(scored[2], "metric.portfolio_variance"@)
            &&& asks(scored[3], "metric.mean_correlation"@)
            &&& asks(scored[4], "metric.factor_share"@)
            &&& likelihood.inputs.len() == 6
            &&& likelihood.inputs[0] == m.daily
            &&& is_relative_change(run, 1, m.daily, m.adj_close, likelihood.inputs[1])
            &&& scored[1].inputs[0] == m.daily
            &&& scored[1].inputs[2] == likelihood.inputs[1]
            &&& scored[3].inputs[1] == index
            &&& scored[4].inputs[1] == index
            &&& is_late(run, 1, clock, least.inputs[1], index)
            &&& forall|i: int|
                2 <= i <= 4 ==> (#[trigger] scored[i]).inputs.len() == 5 && scored[i].inputs[0]
                    == m.daily && scored[i].inputs[2] == likelihood.inputs[3]
                    && scored[i].inputs[3] == likelihood.inputs[4] && scored[i].inputs[4]
                    == likelihood.inputs[5]
            &&& forall|k: int|
                0 <= k < 3 ==> (#[trigger] likelihood.inputs[3 + k]).op == Op::Rolling(
                    Rolling::Lag,
                    Window::Count(1),
                ) && likelihood.inputs[3 + k].inputs == seq![clock, least.inputs[2 + k]] && is_late(
                    run,
                    1,
                    clock,
                    least.inputs[2 + k],
                    likelihood.inputs[3 + k],
                )
        }),
{
    let scored = metrics(args, m, instants, p);
    let clock = score_clock(m, instants);
    let least = least_variance(args, m, instants, p);
    let universe = index_weights(args, m, instants);
    assert(clock.inputs =~= seq![m.daily, ticks(instants)]);
    assert(scored[1].inputs[1] == scored_book(args, m, instants, p));
    assert(scored[1].inputs[1].inputs[0].inputs[1] == least);
    assert(least.inputs[1] == universe && least.inputs[2] == port(0, p) && least.inputs[3] == port(
        1,
        p,
    ) && least.inputs[4] == port(2, p));
    relative_changes_are_told(run, 1, m.daily, m.adj_close);
    relative_changes_are_told(run, 1, clock, universe);
    relative_changes_are_told(run, 1, clock, port(0, p));
    relative_changes_are_told(run, 1, clock, port(1, p));
    relative_changes_are_told(run, 1, clock, port(2, p));
    let likelihood = scored[0];
    assert(likelihood.inputs[3] == lagged(m, instants, port(0, p)));
    assert(likelihood.inputs[4] == lagged(m, instants, port(1, p)));
    assert(likelihood.inputs[5] == lagged(m, instants, port(2, p)));
    assert(likelihood.inputs[3].inputs =~= seq![clock, port(0, p)]);
    assert(likelihood.inputs[4].inputs =~= seq![clock, port(1, p)]);
    assert(likelihood.inputs[5].inputs =~= seq![clock, port(2, p)]);
}

/// A variant's model learns the stocks' daily returns from the risk panel, on
/// the calendar, over the universe that its book of least variance is chosen
/// from: the greatest stocks by close times circulating shares. Its settings
/// reach it under their own names.
pub proof fn a_model_learns_returns(
    run: Run,
    args: Args,
    m: MarketView,
    instants: Seq<Instant>,
    v: VariantView,
    risk: Term,
)
    ensures
        ({
            let p = prediction(args, m, instants, v, risk);
            let k = if args.universe_size == 0 {
                m.n
            } else {
                args.universe_size
            };
            &&& asks(p, v.module@)
            &&& p.inputs.len() == 5
            &&& p.inputs[0] == m.daily
            &&& p.inputs[1] == risk
            &&& p.inputs[2].op == Op::Rolling(Rolling::PctChange, Window::Count(1))
            &&& p.inputs[2].inputs == seq![m.daily, m.adj_close]
            &&& is_relative_change(run, 1, m.daily, m.adj_close, p.inputs[2])
            &&& p.inputs[3] == ticks(instants)
            &&& p.inputs[4] == least_variance(args, m, instants, p).inputs[1]
            &&& forall|lane: int, now: int| #[trigger]
                value(run, p.inputs[4], lane, now) == Some(
                    cap_weight(
                        circulating_cap(
                            run,
                            ticks(instants),
                            m.close,
                            m.field("shares.circulating"@),
                            now,
                        ),
                        if args.universe_size == 0 {
                            m.n as nat
                        } else {
                            args.universe_size as nat
                        },
                        run.lanes,
                        lane,
                    ),
                )
            &&& is_told(p, "universe_size"@, ParamView::Count(k))
            &&& is_told(p, "target_offset"@, ParamView::Count(1))
            &&& is_told(p, "min_periods"@, ParamView::Count(args.min_periods))
            &&& is_told(p, "covariance_halflife"@, ParamView::Number(v.covariance_halflife))
            &&& is_told(p, "specific_halflife"@, ParamView::Number(v.specific_halflife))
            &&& v.target is Some ==> is_told(p, "rank"@, ParamView::Count(v.rank)) && is_told(
                p,
                "window"@,
                ParamView::Count(v.window),
            ) && is_told(p, "target"@, ParamView::Text(v.target->0@))
            &&& v.target is Some && args.verbose ==> is_told(
                p,
                "label"@,
                ParamView::Text(v.label),
            )
        }),
{
    let p = prediction(args, m, instants, v, risk);
    let universe = index_weights(args, m, instants);
    assert(p.inputs[2] == daily_returns(m) && p.inputs[4] == universe);
    assert(least_variance(args, m, instants, p).inputs[1] == universe);
    relative_changes_are_told(run, 1, m.daily, m.adj_close);
    assert forall|lane: int, now: int| #[trigger]
        value(run, universe, lane, now) == Some(
            cap_weight(
                circulating_cap(
                    run,
                    ticks(instants),
                    m.close,
                    m.field("shares.circulating"@),
                    now,
                ),
                tradable(args, m) as nat,
                run.lanes,
                lane,
            ),
        ) by {
        the_universe_weighs_circulating_caps(
            run,
            ticks(instants),
            m.close,
            m.field("shares.circulating"@),
            tradable(args, m),
            lane,
            now,
        );
    }
    let q = p.data->params;
    assert(q.contains(q[0]) && q.contains(q[1]) && q.contains(q[2]) && q.contains(q[3])
        && q.contains(q[4]));
    if v.target is Some {
        assert(q.contains(q[5]) && q.contains(q[6]) && q.contains(q[7]));
        if args.verbose {
            assert(q.contains(q[8]));
        }
    }
}

/// The series of a variant are its metrics, in their order, recorded on the
/// trading days.
pub proof fn the_series_record_the_metrics(
    s: Scores,
    b: Builder,
    args: Args,
    m: MarketView,
    instants: Seq<Instant>,
    risk: Term,
    v: VariantView,
    i: int,
)
    requires
        s.are_of(b, args, m, instants, risk, v),
        0 <= i < 7,
    ensures
        s.label@ == v.label,
        s.series@.len() == 7,
        s.series@[i]@.op == Op::Record,
        s.series@[i]@.inputs[0] == m.daily,
        s.series@[i]@.inputs[1] == metrics(
            args,
            m,
            instants,
            prediction(args, m, instants, v, risk),
        )[i],
{
    assert(b.has(s.series@[i]));
}

} // verus!
