//! The plan of the factor model strategy.
//!
//! The features and past returns feed a mean predictor and a covariance
//! predictor; both feed one optimizer per risk aversion, whose weights are
//! held long-only and unleveraged and traded. The variants of the sweep share
//! the features and both models, and fork only at the optimizer.
use vstd::prelude::*;

use crate::data::{MarketData, MarketView};
use crate::double::{Double, Figure, INFINITE_BITS};
use crate::features::chip::ONE;
use crate::features::needs::{
    alpha_fields, has_both, note, note_alpha, note_risk, ready_for, risk_fields,
};
use crate::features::panels::{Catalog, Finish, Panels, build_features, given};
use crate::features::sets::AlphaFeatureSet;
use crate::graph::{
    Builder, Bundle, Matrix, Op, Param, ParamView, Pulse, Rolling, Series, Term, Unary, Vector,
    Window, Wire, params_view, port, rolling, t2, texts, unary,
};
use crate::ops::{module, param, ticks};
use crate::plans::{PlanError, examine, feasible, infeasible, universe_size};
use crate::quotes::{build_quotes, quote_book};
use crate::strategy_base::args::{Args, RiskModelKind, alpha_name, portfolio_name, risk_name};
use crate::time::Instant;
use crate::trade::{Venue, follow_at, net_value, trader_at, venue_of};
use crate::universe::{build_cap_weighted_universe, universe_of};
use crate::meaning::{
    Run, absolute, asks, cap_weight, cross, group_values, is_relative_change, is_told, known, made,
    mean, num, number, patterns_are_numbers, relative_changes_are_told,
    relative_changes_have_no_scale, sums_agree, sums_scale, total, value, zero_is_nothing,
};
use crate::trade::a_trader_reads_its_venue;
use crate::universe::{circulating_cap, the_universe_weighs_circulating_caps};

verus! {

/// The dividends that the simulated trader is paid.
pub const PAID_FIELDS: [&'static str; 2] = ["dividends.share", "dividends.cash"];

/// The fields of the universe and of the quote book.
pub const TRADED_FIELDS: [&'static str; 2] = ["shares.circulating", "prices.close"];

/// The panel fields that the strategy reads.
pub open spec fn fields_read(args: Args) -> Seq<&'static str> {
    PAID_FIELDS@ + alpha_fields(args.alpha_feature_sets@) + risk_fields(
        args.risk_feature_sets@,
    ) + TRADED_FIELDS@
}

/// The size of the tradable universe.
pub open spec fn tradable(args: Args, m: MarketView) -> usize {
    universe_size(args.universe_size, m.n)
}

/// The weights of the cap-weighted index, on the rebalance calendar.
pub open spec fn index_weights(args: Args, m: MarketView, instants: Seq<Instant>) -> Term {
    universe_of(
        ticks(instants),
        m.close,
        m.field("shares.circulating"@),
        tradable(args, m),
    )
}

/// What the strategy trades against.
pub open spec fn strategy_venue(m: MarketView) -> Seq<Term> {
    venue_of(
        m.daily,
        quote_book(m.price_signals, m.field("prices.close"@)),
        m.div_signals,
        m.field("dividends.share"@),
        m.field("dividends.cash"@),
    )
}

/// The net asset value of a book on the rebalance calendar, day by day.
pub open spec fn nav_record(
    args: Args,
    m: MarketView,
    instants: Seq<Instant>,
    weights: Term,
) -> Term {
    t2(
        Op::Record,
        m.daily,
        net_value(
            trader_at(args.costs, args.initial_cash),
            strategy_venue(m),
            ticks(instants),
            weights,
        ),
    )
}

/// The realized returns.
pub open spec fn daily_returns(m: MarketView) -> Term {
    rolling(Rolling::PctChange, Window::Count(1), m.daily, m.adj_close)
}

/// The predicted returns: the alpha model over the alpha panel and the
/// realized returns less their mean.
pub open spec fn predicted_returns(
    args: Args,
    m: MarketView,
    instants: Seq<Instant>,
    alpha: Term,
) -> Term {
    module(
        alpha_name(args.alpha_model),
        seq![
            ("universe_size"@, ParamView::Count(tradable(args, m))),
            ("target_offset"@, ParamView::Count(1)),
            ("min_periods"@, ParamView::Count(args.min_periods)),
            ("ridge_l2"@, ParamView::Number(args.ridge_l2)),
            ("premium_halflife"@, ParamView::Number(args.premium_halflife)),
        ],
        seq![
            m.daily,
            alpha,
            unary(Unary::Demean, daily_returns(m)),
            ticks(instants),
            index_weights(args, m, instants),
        ],
    )
}

/// The parameters of the risk model; the rank and the window are the
/// shrinkage model's alone.
pub open spec fn risk_params(args: Args, k: usize) -> Seq<(Seq<char>, ParamView)> {
    let common = seq![
        ("universe_size"@, ParamView::Count(k)),
        ("target_offset"@, ParamView::Count(1)),
        ("min_periods"@, ParamView::Count(args.min_periods)),
        ("covariance_halflife"@, ParamView::Number(args.covariance_halflife)),
        ("specific_halflife"@, ParamView::Number(args.specific_halflife)),
    ];
    if args.risk_model == RiskModelKind::Shrinkage {
        common + seq![
            ("rank"@, ParamView::Count(args.risk_rank)),
            ("window"@, ParamView::Count(args.risk_window)),
        ]
    } else {
        common
    }
}

/// The predicted covariance: exposures, factor covariances and specific
/// variances, on three ports.
pub open spec fn predicted_risk(
    args: Args,
    m: MarketView,
    instants: Seq<Instant>,
    risk: Term,
) -> Term {
    module(
        risk_name(args.risk_model),
        risk_params(args, tradable(args, m)),
        seq![
            m.daily,
            risk,
            daily_returns(m),
            ticks(instants),
            index_weights(args, m, instants),
        ],
    )
}

/// The weights that the optimizer asks for under a risk aversion.
pub open spec fn optimized(
    args: Args,
    m: MarketView,
    instants: Seq<Instant>,
    alpha: Term,
    risk: Term,
    aversion: Double,
) -> Term {
    let predicted = predicted_risk(args, m, instants, risk);
    module(
        portfolio_name(args.portfolio),
        seq![
            ("universe_size"@, ParamView::Count(tradable(args, m))),
            ("benchmark_relative"@, ParamView::Flag(args.benchmark_relative)),
            ("risk_aversion"@, ParamView::Number(aversion)),
            ("long_only"@, ParamView::Flag(true)),
            ("full_position"@, ParamView::Flag(true)),
        ],
        seq![
            ticks(instants),
            index_weights(args, m, instants),
            predicted_returns(args, m, instants, alpha),
            port(0, predicted),
            port(1, predicted),
            port(2, predicted),
        ],
    )
}

/// Weights held long-only and unleveraged: what is negative becomes zero, and
/// a sum above one is scaled down to one.
pub open spec fn bounded(weights: Term) -> Term {
    unary(
        Unary::ScaleDown(Double { bits: ONE }),
        unary(
            Unary::Clamp(Double { bits: 0 }, Double { bits: INFINITE_BITS }),
            weights,
        ),
    )
}

/// The variants of a sweep ask the same optimizer the same question: what it
/// reads does not depend on the risk aversion, so the features and both
/// models are shared.
pub proof fn variants_fork_at_the_optimizer(
    args: Args,
    m: MarketView,
    instants: Seq<Instant>,
    alpha: Term,
    risk: Term,
    a: Double,
    b: Double,
)
    ensures
        ({
            let first = optimized(args, m, instants, alpha, risk, a);
            let second = optimized(args, m, instants, alpha, risk, b);
            &&& first.inputs == second.inputs
            &&& first.op == second.op
            &&& first == second <==> a == b
        }),
{
    let first = optimized(args, m, instants, alpha, risk, a);
    let second = optimized(args, m, instants, alpha, risk, b);
    if first == second {
        assert(first.data->params[2] == second.data->params[2]);
    }
}

/// One variant of the sweep.
pub struct Variant {
    pub label: String,
    /// The net asset value, day by day.
    pub nav: Wire<Series>,
    /// The book of weights, rebalance by rebalance.
    pub book: Wire<Series>,
}

impl Variant {
    /// Whether this is the variant of a risk aversion.
    pub open spec fn is_of(
        self,
        b: Builder,
        args: Args,
        m: MarketView,
        instants: Seq<Instant>,
        alpha: Term,
        risk: Term,
        aversion: Figure,
    ) -> bool {
        let weights = bounded(optimized(args, m, instants, alpha, risk, aversion.value));
        &&& self.label@ == "risk_aversion_"@ + aversion.text@
        &&& b.has(self.nav)
        &&& self.nav@ == nav_record(args, m, instants, weights)
        &&& b.has(self.book)
        &&& self.book@ == t2(Op::Record, ticks(instants), weights)
    }
}

/// The wired strategy.
pub struct Strategy {
    pub panels: Panels,
    /// The net asset value of the cap-weighted index, day by day.
    pub index_nav: Wire<Series>,
    /// The variants, in the order of the sweep.
    pub variants: Vec<Variant>,
}

/// The wires that the variants share.
struct Shared {
    venue: Venue,
    rebalance: Wire<Pulse>,
    universe: Wire<Vector>,
    mu: Wire<Vector>,
    exposures: Wire<Matrix>,
    covariance: Wire<Matrix>,
    specific: Wire<Vector>,
}

impl Shared {
    spec fn right(
        self,
        b: Builder,
        args: Args,
        m: MarketView,
        instants: Seq<Instant>,
        alpha: Term,
        risk: Term,
    ) -> bool {
        let predicted = predicted_risk(args, m, instants, risk);
        &&& self.venue.belongs(b)
        &&& self.venue@ == strategy_venue(m)
        &&& self.venue.daily@ == m.daily
        &&& b.has(self.rebalance)
        &&& self.rebalance@ == ticks(instants)
        &&& b.has(self.universe)
        &&& self.universe@ == index_weights(args, m, instants)
        &&& b.has(self.mu)
        &&& self.mu@ == predicted_returns(args, m, instants, alpha)
        &&& b.has(self.exposures)
        &&& self.exposures@ == port(0, predicted)
        &&& b.has(self.covariance)
        &&& self.covariance@ == port(1, predicted)
        &&& b.has(self.specific)
        &&& self.specific@ == port(2, predicted)
    }
}

/// Wires the alpha model.
fn build_alpha_model(
    b: &mut Builder,
    args: &Args,
    k: usize,
    daily: Wire<Pulse>,
    panel: Wire<Matrix>,
    realized: Wire<Vector>,
    rebalance: Wire<Pulse>,
    universe: Wire<Vector>,
) -> (r: Wire<Vector>)
    requires
        old(b).ordered(),
        old(b).has(daily),
        old(b).has(panel),
        old(b).has(realized),
        old(b).has(rebalance),
        old(b).has(universe),
    ensures
        final(b).grown(*old(b)),
        final(b).has(r),
        r@ == module(
            alpha_name(args.alpha_model),
            seq![
                ("universe_size"@, ParamView::Count(k)),
                ("target_offset"@, ParamView::Count(1)),
                ("min_periods"@, ParamView::Count(args.min_periods)),
                ("ridge_l2"@, ParamView::Number(args.ridge_l2)),
                ("premium_halflife"@, ParamView::Number(args.premium_halflife)),
            ],
            seq![daily@, panel@, realized@, rebalance@, universe@],
        ),
{
    let params = vec![
        param("universe_size", Param::Count(k)),
        param("target_offset", Param::Count(1)),
        param("min_periods", Param::Count(args.min_periods)),
        param("ridge_l2", Param::Number(args.ridge_l2)),
        param("premium_halflife", Param::Number(args.premium_halflife)),
    ];
    assert(params_view(params@) =~= seq![
        ("universe_size"@, ParamView::Count(k)),
        ("target_offset"@, ParamView::Count(1)),
        ("min_periods"@, ParamView::Count(args.min_periods)),
        ("ridge_l2"@, ParamView::Number(args.ridge_l2)),
        ("premium_halflife"@, ParamView::Number(args.premium_halflife)),
    ]);
    let inputs = vec![
        daily.index(),
        panel.index(),
        realized.index(),
        rebalance.index(),
        universe.index(),
    ];
    let ghost given = seq![daily@, panel@, realized@, rebalance@, universe@];
    b.module(args.alpha_module(), params, inputs, Ghost(given))
}

/// Wires the risk model.
fn build_risk_model(
    b: &mut Builder,
    args: &Args,
    k: usize,
    daily: Wire<Pulse>,
    panel: Wire<Matrix>,
    realized: Wire<Vector>,
    rebalance: Wire<Pulse>,
    universe: Wire<Vector>,
) -> (r: Wire<Bundle>)
    requires
        old(b).ordered(),
        old(b).has(daily),
        old(b).has(panel),
        old(b).has(realized),
        old(b).has(rebalance),
        old(b).has(universe),
    ensures
        final(b).grown(*old(b)),
        final(b).has(r),
        r@ == module(
            risk_name(args.risk_model),
            risk_params(*args, k),
            seq![daily@, panel@, realized@, rebalance@, universe@],
        ),
{
    let mut params = vec![
        param("universe_size", Param::Count(k)),
        param("target_offset", Param::Count(1)),
        param("min_periods", Param::Count(args.min_periods)),
        param("covariance_halflife", Param::Number(args.covariance_halflife)),
        param("specific_halflife", Param::Number(args.specific_halflife)),
    ];
    if args.risk_model == RiskModelKind::Shrinkage {
        params.push(param("rank", Param::Count(args.risk_rank)));
        params.push(param("window", Param::Count(args.risk_window)));
    }
    assert(params_view(params@) =~= risk_params(*args, k));
    let inputs = vec![
        daily.index(),
        panel.index(),
        realized.index(),
        rebalance.index(),
        universe.index(),
    ];
    let ghost given = seq![daily@, panel@, realized@, rebalance@, universe@];
    b.module(args.risk_module(), params, inputs, Ghost(given))
}

/// Wires one variant of the sweep: its optimizer, the bounds on its weights,
/// its trader and its two records, and nothing that another variant has.
fn build_variant(
    b: &mut Builder,
    args: &Args,
    k: usize,
    shared: &Shared,
    aversion: &Figure,
    Ghost(m): Ghost<MarketView>,
    Ghost(instants): Ghost<Seq<Instant>>,
    Ghost(alpha): Ghost<Term>,
    Ghost(risk): Ghost<Term>,
) -> (r: Variant)
    requires
        old(b).ordered(),
        shared.right(*old(b), *args, m, instants, alpha, risk),
        k == tradable(*args, m),
    ensures
        final(b).grown(*old(b)),
        final(b).nodes().len() == old(b).nodes().len() + 7,
        r.is_of(*final(b), *args, m, instants, alpha, risk, *aversion),
{
    let params = vec![
        param("universe_size", Param::Count(k)),
        param("benchmark_relative", Param::Flag(args.benchmark_relative)),
        param("risk_aversion", Param::Number(aversion.value)),
        param("long_only", Param::Flag(true)),
        param("full_position", Param::Flag(true)),
    ];
    assert(params_view(params@) =~= seq![
        ("universe_size"@, ParamView::Count(k)),
        ("benchmark_relative"@, ParamView::Flag(args.benchmark_relative)),
        ("risk_aversion"@, ParamView::Number(aversion.value)),
        ("long_only"@, ParamView::Flag(true)),
        ("full_position"@, ParamView::Flag(true)),
    ]);
    let inputs = vec![
        shared.rebalance.index(),
        shared.universe.index(),
        shared.mu.index(),
        shared.exposures.index(),
        shared.covariance.index(),
        shared.specific.index(),
    ];
    let ghost given = seq![
        shared.rebalance@,
        shared.universe@,
        shared.mu@,
        shared.exposures@,
        shared.covariance@,
        shared.specific@,
    ];
    let asked: Wire<Vector> = b.module(args.portfolio_module(), params, inputs, Ghost(given));
    let long = b.unary(Unary::Clamp(Double::zero(), Double::infinity()), asked);
    let weights = b.unary(Unary::ScaleDown(Double { bits: ONE }), long);
    let value = follow_at(
        b,
        args.costs,
        args.initial_cash,
        &shared.venue,
        shared.rebalance,
        weights,
    );
    let nav = b.record(shared.venue.daily, value);
    let book = b.record(shared.rebalance, weights);
    Variant { label: "risk_aversion_".to_string().concat(aversion.text.as_str()), nav, book }
}

/// Wires the strategy over the market data: the feature panels, the index,
/// the models, and one variant per risk aversion. Each variant adds the same
/// seven nodes; all else is shared.
///
/// `instants` is the rebalance calendar, `industries` tags each symbol, and
/// `catalog` is the Alpha101 catalog, needed when it is selected. A universe
/// of less than two symbols, or a missing field, is refused.
#[verifier::rlimit(40)]
pub fn build_strategy(
    b: &mut Builder,
    args: &Args,
    m: &MarketData,
    industries: &Vec<String>,
    instants: Vec<Instant>,
    catalog: Option<Catalog>,
) -> (r: Result<Strategy, PlanError>)
    requires
        old(b).ordered(),
        m.belongs(*old(b)),
        args.alpha_feature_sets@.contains(AlphaFeatureSet::Alpha101) ==> catalog is Some,
        args.alpha_feature_sets@.contains(AlphaFeatureSet::Alpha101)
            ==> catalog->0.ctx.belongs(*old(b)),
    ensures
        final(b).grown(*old(b)),
        match r {
            Ok(s) => {
                &&& feasible(tradable(*args, m@), m@, fields_read(*args))
                &&& s.panels.show(
                    *final(b),
                    m@,
                    args.alpha_feature_sets@,
                    args.risk_feature_sets@,
                    texts(industries@),
                    given(catalog),
                    Finish::Normalize,
                    Finish::Normalize,
                )
                &&& final(b).has(s.index_nav)
                &&& s.index_nav@ == nav_record(
                    *args,
                    m@,
                    instants@,
                    index_weights(*args, m@, instants@),
                )
                &&& s.variants@.len() == args.risk_aversion@.len()
                &&& forall|i: int|
                    0 <= i < s.variants@.len() ==> (#[trigger] s.variants@[i]).is_of(
                        *final(b),
                        *args,
                        m@,
                        instants@,
                        s.panels.alpha.panel@,
                        s.panels.risk.panel@,
                        args.risk_aversion@[i],
                    )
            },
            Err(e) => infeasible(tradable(*args, m@), m@, fields_read(*args), e),
        },
{
    let k = args.resolved_universe_size(m.n);
    let mut fields: Vec<&'static str> = Vec::new();
    note(&mut fields, PAID_FIELDS.as_slice());
    assert(fields@ =~= PAID_FIELDS@);
    note_alpha(&mut fields, &args.alpha_feature_sets);
    note_risk(&mut fields, &args.risk_feature_sets);
    note(&mut fields, TRADED_FIELDS.as_slice());
    if let Some(e) = examine(k, m, &fields) {
        return Err(e);
    }
    proof {
        let alpha = alpha_fields(args.alpha_feature_sets@);
        let risk = risk_fields(args.risk_feature_sets@);
        has_both(m@, PAID_FIELDS@ + alpha + risk, TRADED_FIELDS@);
        has_both(m@, PAID_FIELDS@ + alpha, risk);
        has_both(m@, PAID_FIELDS@, alpha);
        ready_for(m@, args.alpha_feature_sets@, args.risk_feature_sets@);
        assert(m@.has_field(PAID_FIELDS@[0]@));
        assert(m@.has_field(PAID_FIELDS@[1]@));
        assert(m@.has_field(TRADED_FIELDS@[0]@));
        assert(m@.has_field(TRADED_FIELDS@[1]@));
    }
    let ghost ticked = instants@;
    let share_divs = m.field("dividends.share");
    let cash_divs = m.field("dividends.cash");
    let daily = m.daily;
    let panels = build_features(
        b,
        m,
        &args.alpha_feature_sets,
        &args.risk_feature_sets,
        industries,
        catalog,
    );
    let ghost alpha = panels.alpha.panel@;
    let ghost risk = panels.risk.panel@;
    let ghost shown = *b;
    assert(m.belongs(*b));
    let rebalance = b.ticks(instants);
    let circulating = m.field("shares.circulating");
    let universe = build_cap_weighted_universe(b, m.close, circulating, rebalance, k);
    let closes = m.field("prices.close");
    let (flags, bids, asks) = build_quotes(b, m.price_signals, closes);
    let venue = Venue {
        daily,
        flags,
        bids,
        asks,
        div_signals: m.div_signals,
        share_divs,
        cash_divs,
    };
    assert(venue@ =~= strategy_venue(m@));
    let index_value = follow_at(b, args.costs, args.initial_cash, &venue, rebalance, universe);
    let index_nav = b.record(daily, index_value);
    let realized = b.rolling(Rolling::PctChange, Window::Count(1), daily, m.adj_close);
    let demeaned = b.unary(Unary::Demean, realized);
    let mu = build_alpha_model(
        b,
        args,
        k,
        daily,
        panels.alpha.panel,
        demeaned,
        rebalance,
        universe,
    );
    let predicted = build_risk_model(
        b,
        args,
        k,
        daily,
        panels.risk.panel,
        realized,
        rebalance,
        universe,
    );
    let exposures = b.output(0, predicted);
    let covariance = b.output(1, predicted);
    let specific = b.output(2, predicted);
    let shared = Shared { venue, rebalance, universe, mu, exposures, covariance, specific };
    assert(shared.right(*b, *args, m@, ticked, alpha, risk));
    let mut variants: Vec<Variant> = Vec::new();
    for i in 0..args.risk_aversion.len()
        invariant
            k == tradable(*args, m@),
            b.grown(*old(b)),
            b.keeps(shown),
            b.has(index_nav),
            shared.right(*b, *args, m@, ticked, alpha, risk),
            variants@.len() == i,
            forall|j: int|
                0 <= j < i ==> (#[trigger] variants@[j]).is_of(
                    *b,
                    *args,
                    m@,
                    ticked,
                    alpha,
                    risk,
                    args.risk_aversion@[j],
                ),
    {
        let variant = build_variant(
            b,
            args,
            k,
            &shared,
            &args.risk_aversion[i],
            Ghost(m@),
            Ghost(ticked),
            Ghost(alpha),
            Ghost(risk),
        );
        variants.push(variant);
    }
    Ok(Strategy { panels, index_nav, variants })
}

/// Both models learn the stocks' daily returns: the risk model from the
/// fraction by which the adjusted close changed since the trading day before,
/// and the alpha model from the same, less its mean over the stocks. Each
/// reads its own panel, and both the same calendar and the same universe, the
/// one that the optimizer chooses from; and the optimizer reads what both
/// predict.
pub proof fn both_models_learn_returns(
    run: Run,
    args: Args,
    m: MarketView,
    instants: Seq<Instant>,
    alpha: Term,
    risk: Term,
    aversion: Double,
)
    ensures
        ({
            let asked = optimized(args, m, instants, alpha, risk, aversion);
            let mean_model = asked.inputs[2];
            let risk_model = asked.inputs[3].inputs[0];
            let target = risk_model.inputs[2];
            let demeaned = mean_model.inputs[2];
            &&& asks(asked, "portfolio.markowitz_cvxpy"@)
            &&& asks(mean_model, "alpha_models.factor_model"@)
            &&& args.risk_model == RiskModelKind::FactorModel ==> asks(
                risk_model,
                "risk_models.factor_model"@,
            )
            &&& args.risk_model == RiskModelKind::Shrinkage ==> asks(
                risk_model,
                "risk_models.shrinkage"@,
            )
            &&& asked.inputs.len() == 6
            &&& forall|k: int|
                0 <= k < 3 ==> (#[trigger] asked.inputs[3 + k]).op == Op::Port(k as usize)
                    && asked.inputs[3 + k].inputs == seq![risk_model]
            &&& target.op == Op::Rolling(Rolling::PctChange, Window::Count(1))
            &&& target.inputs == seq![m.daily, m.adj_close]
            &&& is_relative_change(run, 1, m.daily, m.adj_close, target)
            &&& demeaned.op == Op::Unary(Unary::Demean)
            &&& demeaned.inputs == seq![target]
            &&& forall|lane: int, now: int|
                known(run, target, lane, now) ==> #[trigger] value(run, demeaned, lane, now)
                    == Some(
                    num(run, target, lane, now) - mean(cross(run, target, now), run.lanes),
                )
            &&& mean_model.inputs[0] == m.daily
            &&& risk_model.inputs[0] == m.daily
            &&& mean_model.inputs[1] == alpha
            &&& risk_model.inputs[1] == risk
            &&& mean_model.inputs[3] == ticks(instants)
            &&& risk_model.inputs[3] == ticks(instants)
            &&& asked.inputs[0] == ticks(instants)
            &&& mean_model.inputs[4] == asked.inputs[1]
            &&& risk_model.inputs[4] == asked.inputs[1]
            &&& forall|lane: int, now: int| #[trigger]
                value(run, asked.inputs[1], lane, now) == Some(
                    cap_weight(
                        circulating_cap(
                            run,
                            ticks(instants),
                            m.close,
                            m.field("shares.circulating"@),
                            now,
                        ),
                        if args.universe_size == 0 {
                            m.n as nat
                        } else {
                            args.universe_size as nat
                        },
                        run.lanes,
                        lane,
                    ),
                )
        }),
{
    broadcast use group_values;

    let asked = optimized(args, m, instants, alpha, risk, aversion);
    let risk_model = predicted_risk(args, m, instants, risk);
    let mean_model = predicted_returns(args, m, instants, alpha);
    let target = daily_returns(m);
    let universe = index_weights(args, m, instants);
    assert(asked.inputs[2] == mean_model);
    assert(asked.inputs[3] == port(0, risk_model));
    assert(asked.inputs[4] == port(1, risk_model));
    assert(asked.inputs[5] == port(2, risk_model));
    assert(port(0, risk_model).inputs[0] == risk_model);
    assert(risk_model.inputs[2] == target);
    assert(mean_model.inputs[2] == unary(Unary::Demean, target));
    relative_changes_are_told(run, 1, m.daily, m.adj_close);
    assert forall|lane: int, now: int|
        known(run, target, lane, now) implies #[trigger] value(
        run,
        mean_model.inputs[2],
        lane,
        now,
    ) == Some(num(run, target, lane, now) - mean(cross(run, target, now), run.lanes)) by {
        assert(cross(run, target, now)(lane) == value(run, target, lane, now));
    }
    assert forall|lane: int, now: int| #[trigger]
        value(run, universe, lane, now) == Some(
            cap_weight(
                circulating_cap(
                    run,
                    ticks(instants),
                    m.close,
                    m.field("shares.circulating"@),
                    now,
                ),
                tradable(args, m) as nat,
                run.lanes,
                lane,
            ),
        ) by {
        the_universe_weighs_circulating_caps(
            run,
            ticks(instants),
            m.close,
            m.field("shares.circulating"@),
            tradable(args, m),
            lane,
            now,
        );
    }
}

/// The target of both models has no scale: multiplying a stock's prices by
/// one factor leaves it as it is.
pub proof fn the_target_has_no_scale(
    run: Run,
    m: MarketView,
    rescaled: MarketView,
    factor: real,
    lane: int,
    now: int,
)
    requires
        factor != 0real,
        rescaled.daily == m.daily,
        forall|at: int| #[trigger]
            value(run, rescaled.adj_close, lane, at) == match value(run, m.adj_close, lane, at) {
                Some(v) => Some(factor * v),
                None => None,
            },
    ensures
        value(run, daily_returns(rescaled), lane, now) == value(run, daily_returns(m), lane, now),
{
    relative_changes_have_no_scale(
        run,
        Window::Count(1),
        m.daily,
        m.adj_close,
        rescaled.adj_close,
        factor,
        lane,
        now,
    );
}

/// The settings reach the models and the optimizer under their own names: the
/// features of a day predict the return of the next, both models work on the
/// tradable universe, and the optimizer holds no shorts and no cash.
pub proof fn the_settings_reach_the_models(
    args: Args,
    m: MarketView,
    instants: Seq<Instant>,
    alpha: Term,
    risk: Term,
    aversion: Double,
)
    ensures
        ({
            let asked = optimized(args, m, instants, alpha, risk, aversion);
            let mean_model = asked.inputs[2];
            let risk_model = asked.inputs[3].inputs[0];
            let k = if args.universe_size == 0 {
                m.n
            } else {
                args.universe_size
            };
            &&& is_told(asked, "universe_size"@, ParamView::Count(k))
            &&& is_told(asked, "benchmark_relative"@, ParamView::Flag(args.benchmark_relative))
            &&& is_told(asked, "risk_aversion"@, ParamView::Number(aversion))
            &&& is_told(asked, "long_only"@, ParamView::Flag(true))
            &&& is_told(asked, "full_position"@, ParamView::Flag(true))
            &&& is_told(mean_model, "universe_size"@, ParamView::Count(k))
            &&& is_told(mean_model, "target_offset"@, ParamView::Count(1))
            &&& is_told(mean_model, "min_periods"@, ParamView::Count(args.min_periods))
            &&& is_told(mean_model, "ridge_l2"@, ParamView::Number(args.ridge_l2))
            &&& is_told(mean_model, "premium_halflife"@, ParamView::Number(args.premium_halflife))
            &&& is_told(risk_model, "universe_size"@, ParamView::Count(k))
            &&& is_told(risk_model, "target_offset"@, ParamView::Count(1))
            &&& is_told(risk_model, "min_periods"@, ParamView::Count(args.min_periods))
            &&& is_told(
                risk_model,
                "covariance_halflife"@,
                ParamView::Number(args.covariance_halflife),
            )
            &&& is_told(
                risk_model,
                "specific_halflife"@,
                ParamView::Number(args.specific_halflife),
            )
            &&& args.risk_model == RiskModelKind::Shrinkage ==> is_told(
                risk_model,
                "rank"@,
                ParamView::Count(args.risk_rank),
            ) && is_told(risk_model, "window"@, ParamView::Count(args.risk_window))
        }),
{
    let asked = optimized(args, m, instants, alpha, risk, aversion);
    let mean_model = predicted_returns(args, m, instants, alpha);
    let risk_model = predicted_risk(args, m, instants, risk);
    assert(asked.inputs[2] == mean_model);
    assert(asked.inputs[3].inputs[0] == risk_model);
    let p = asked.data->params;
    assert(p.contains(p[0]) && p.contains(p[1]) && p.contains(p[2]) && p.contains(p[3])
        && p.contains(p[4]));
    let q = mean_model.data->params;
    assert(q.contains(q[0]) && q.contains(q[1]) && q.contains(q[2]) && q.contains(q[3])
        && q.contains(q[4]));
    let r = risk_model.data->params;
    assert(r.contains(r[0]) && r.contains(r[1]) && r.contains(r[2]) && r.contains(r[3])
        && r.contains(r[4]));
    if args.risk_model == RiskModelKind::Shrinkage {
        assert(r.contains(r[5]) && r.contains(r[6]));
    }
}

/// Weights are held long-only and unleveraged: none is negative, they add up
/// to at most one, and where the optimizer already keeps to that nothing is
/// changed. Shorts are dropped before anything is scaled: what is held is in
/// proportion to the long weights, and whole unless these add up to more than
/// one.
pub proof fn weights_are_held_in(run: Run, weights: Term, lane: int, now: int)
    requires
        0 <= lane < run.lanes,
    ensures
        known(run, bounded(weights), lane, now) <==> known(run, weights, lane, now),
        known(run, weights, lane, now) ==> num(run, bounded(weights), lane, now) >= 0real,
        known(run, weights, lane, now) && num(run, weights, lane, now) <= 0real ==> num(
            run,
            bounded(weights),
            lane,
            now,
        ) == 0real,
        total(cross(run, bounded(weights), now), run.lanes) <= 1real,
        ({
            let longs = |l: int|
                match value(run, weights, l, now) {
                    Some(x) => Some(
                        if x > 0real {
                            x
                        } else {
                            0real
                        },
                    ),
                    None => None,
                };
            let sum = total(longs, run.lanes);
            known(run, weights, lane, now) ==> num(run, bounded(weights), lane, now) * (if sum
                > 1real {
                sum
            } else {
                1real
            }) == longs(lane)->0
        }),
        (forall|l: int|
            0 <= l < run.lanes && known(run, weights, l, now) ==> #[trigger] num(
                run,
                weights,
                l,
                now,
            ) >= 0real) && total(cross(run, weights, now), run.lanes) <= 1real ==> value(
            run,
            bounded(weights),
            lane,
            now,
        ) == value(run, weights, lane, now),
{
    broadcast use group_values;

    one_is_told();
    let low = Double { bits: 0 };
    let high = Double { bits: INFINITE_BITS };
    let clamped = unary(Unary::Clamp(low, high), weights);
    let t = bounded(weights);
    let n = run.lanes;
    let f = cross(run, weights, now);
    let g = cross(run, clamped, now);
    let h = cross(run, t, now);
    assert forall|l: int| #[trigger] g(l) == match f(l) {
        Some(x) => Some(
            if x < 0real {
                0real
            } else {
                x
            },
        ),
        None => None,
    } by {
        assert(g(l) == value(run, clamped, l, now));
        assert(f(l) == value(run, weights, l, now));
    }
    let sizes = |l: int|
        match g(l) {
            Some(y) => Some(absolute(y)),
            None => None,
        };
    let gross = total(sizes, n);
    assert forall|l: int| 0 <= l < n implies #[trigger] sizes(l) == g(l) by {
        assert(g(l) == match f(l) {
            Some(x) => Some(
                if x < 0real {
                    0real
                } else {
                    x
                },
            ),
            None => None,
        });
    }
    sums_agree(sizes, g, n);
    let one = number(Double { bits: ONE });
    let c = if gross > one {
        one / gross
    } else {
        1real
    };
    assert forall|l: int| #[trigger] h(l) == match g(l) {
        Some(x) => Some(x * c),
        None => None,
    } by {
        assert(h(l) == value(run, t, l, now));
        assert(value(run, t, l, now) == made(
            run.ln,
            Unary::ScaleDown(Double { bits: ONE }),
            g,
            n,
            l,
        )->0);
    }
    sums_scale(g, h, c, n);
    if gross > one {
        assert(gross * (1real / gross) == 1real) by (nonlinear_arith)
            requires
                gross > 1real,
        ;
        assert(1real / gross > 0real) by (nonlinear_arith)
            requires
                gross > 1real,
        ;
    }
    assert(h(lane) == value(run, t, lane, now));
    assert(f(lane) == value(run, weights, lane, now));
    let longs = |l: int|
        match value(run, weights, l, now) {
            Some(x) => Some(
                if x > 0real {
                    x
                } else {
                    0real
                },
            ),
            None => None,
        };
    assert forall|l: int| 0 <= l < n implies #[trigger] longs(l) == g(l) by {
        assert(f(l) == value(run, weights, l, now));
        assert(g(l) == match f(l) {
            Some(x) => Some(
                if x < 0real {
                    0real
                } else {
                    x
                },
            ),
            None => None,
        });
    }
    sums_agree(longs, g, n);
    if known(run, weights, lane, now) {
        let x = g(lane)->0;
        assert(longs(lane) == g(lane));
        assert(gross > 1real ==> (x * (1real / gross)) * gross == x) by (nonlinear_arith);
        assert(x * c >= 0real) by (nonlinear_arith)
            requires
                x >= 0real,
                c > 0real,
        ;
        assert(x == 0real ==> x * c == 0real) by (nonlinear_arith);
    }
    if (forall|l: int|
        0 <= l < run.lanes && known(run, weights, l, now) ==> #[trigger] num(run, weights, l, now)
            >= 0real) && total(f, n) <= 1real {
        assert forall|l: int| 0 <= l < n implies #[trigger] g(l) == f(l) by {
            assert(f(l) == value(run, weights, l, now));
            if known(run, weights, l, now) {
                assert(num(run, weights, l, now) >= 0real);
            }
        }
        sums_agree(g, f, n);
    }
}

proof fn one_is_told()
    ensures
        number(Double { bits: ONE }) == 1real,
        number(Double { bits: 0 }) == 0real,
        (Double { bits: 0 }).finite(),
        !(Double { bits: INFINITE_BITS }).finite(),
{
    vstd::arithmetic::power2::lemma2_to64_rest();
    patterns_are_numbers(Double { bits: ONE }, 1023, 0, 52, 1);
    zero_is_nothing();
}

/// The index and every variant are traded alike: on the trading days, by one
/// trader at the given costs, against the quotes of the carried closes and
/// the dividends paid, at the rebalances. They differ in the weights alone.
pub proof fn every_book_is_traded_alike(
    args: Args,
    m: MarketView,
    instants: Seq<Instant>,
    weights: Term,
)
    ensures
        ({
            let nav = nav_record(args, m, instants, weights);
            let account = nav.inputs[1].inputs[0];
            let book = account.inputs[1].inputs[0];
            &&& nav.op == Op::Record
            &&& nav.inputs[0] == m.daily
            &&& nav.inputs[1].op == Op::Port(2)
            &&& account.op == trader_at(args.costs, args.initial_cash)
            &&& account.inputs[0] == m.daily
            &&& book.op matches Op::Quotes { .. }
            &&& book.inputs == seq![m.price_signals, m.field("prices.close"@)]
            &&& account.inputs[1].op == Op::Port(0)
            &&& account.inputs[2].op == Op::Port(1)
            &&& account.inputs[2].inputs == seq![book]
            &&& account.inputs[3].op == Op::Port(2)
            &&& account.inputs[3].inputs == seq![book]
            &&& account.inputs[4] == m.div_signals
            &&& account.inputs[5] == m.field("dividends.share"@)
            &&& account.inputs[6] == m.field("dividends.cash"@)
            &&& account.inputs[7] == ticks(instants)
            &&& account.inputs[8] == weights
        }),
{
    let book = quote_book(m.price_signals, m.field("prices.close"@));
    a_trader_reads_its_venue(
        trader_at(args.costs, args.initial_cash),
        m.daily,
        book,
        m.div_signals,
        m.field("dividends.share"@),
        m.field("dividends.cash"@),
        ticks(instants),
        weights,
    );
}

/// What a variant trades is what it records: its net asset value and its book
/// are of the same weights, on the same calendar, and these are what its
/// optimizer asks for under its own risk aversion, held in.
pub proof fn a_variant_trades_its_book(
    v: Variant,
    b: Builder,
    args: Args,
    m: MarketView,
    instants: Seq<Instant>,
    alpha: Term,
    risk: Term,
    aversion: Figure,
)
    requires
        v.is_of(b, args, m, instants, alpha, risk, aversion),
    ensures
        ({
            let account = v.nav@.inputs[1].inputs[0];
            let weights = v.book@.inputs[1];
            &&& v.label@ == "risk_aversion_"@ + aversion.text@
            &&& v.book@.op == Op::Record
            &&& v.book@.inputs[0] == ticks(instants)
            &&& account.inputs[7] == v.book@.inputs[0]
            &&& account.inputs[8] == weights
            &&& asks(weights.inputs[0].inputs[0], "portfolio.markowitz_cvxpy"@)
            &&& is_told(
                weights.inputs[0].inputs[0],
                "risk_aversion"@,
                ParamView::Number(aversion.value),
            )
        }),
{
    let asked = optimized(args, m, instants, alpha, risk, aversion.value);
    let weights = bounded(asked);
    every_book_is_traded_alike(args, m, instants, weights);
    assert(v.book@.inputs[1] == weights);
    assert(weights.inputs[0].inputs[0] == asked);
    the_settings_reach_the_models(args, m, instants, alpha, risk, aversion.value);
}

} // verus!
