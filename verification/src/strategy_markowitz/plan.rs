//! The plan of the Markowitz strategy.
//!
//! The symbol axis covers the whole market; the traded subset is chosen
//! through the universe weights, which the predictors and the optimizer read
//! as "positive means in the universe". The covariance crosses from the
//! predictor to the optimizers as a low-rank-plus-diagonal panel.
use vstd::prelude::*;

use crate::data::{MarketData, MarketView};
use crate::double::{Double, Figure};
use crate::features::basic::BASIC_FIELDS;
use crate::features::common::{Features, TAIL};
use crate::features::needs::{has_both, names_if, note};
use crate::features::panels::{Catalog, given};
use crate::features::sets::{FeatureSet, selects};
use crate::graph::{
    Builder, Bundle, Matrix, Op, Param, ParamView, Pulse, Series, Setting, Term, Unary, Vector,
    Wire, params_view, port, t2, unary,
};
use crate::ops::{module, param, ticks};
use crate::plans::{PlanError, examine, feasible, infeasible, universe_size};
use crate::strategy_base::plan::{PAID_FIELDS, TRADED_FIELDS};
use crate::strategy_markowitz::args::Args;
use crate::strategy_markowitz::features::{FeatureError, build_features, builds};
use crate::strategy_markowitz::quotes::{build_quotes, quote_book};
use crate::time::Instant;
use crate::trade::{Venue, follow_frictionless, frictionless, net_value, venue_of};
use crate::universe::{build_cap_weighted_universe, universe_of};
use crate::meaning::{
    Run, asks, cap_weight, cross, group_values, is_told, known, mean, num, value,
};
use crate::trade::a_trader_reads_its_venue;
use crate::universe::{circulating_cap, the_universe_weighs_circulating_caps};

verus! {

/// Training window of the variance predictor, in trading days.
pub const COV_WINDOW: usize = 252;

/// Observations that a stock needs to be predicted.
pub const MIN_PERIODS: usize = 63;

/// Rank of the factor covariance that the optimizers solve against.
pub const FACTOR_RANK: usize = 20;

/// The panel fields that the strategy reads.
pub open spec fn fields_read(args: Args) -> Seq<&'static str> {
    PAID_FIELDS@ + names_if(args.features@.contains(FeatureSet::Basic), BASIC_FIELDS@)
        + TRADED_FIELDS@
}

/// The size of the tradable universe.
pub open spec fn tradable(args: Args, m: MarketView) -> usize {
    universe_size(args.universe_size, m.n)
}

/// The weights of the cap-weighted index, on the rebalance calendar.
pub open spec fn index_weights(args: Args, m: MarketView, instants: Seq<Instant>) -> Term {
    universe_of(
        ticks(instants),
        m.close,
        m.field("shares.circulating"@),
        tradable(args, m),
    )
}

/// What the strategy trades against.
pub open spec fn strategy_venue(m: MarketView) -> Seq<Term> {
    venue_of(
        m.daily,
        quote_book(m.price_signals, m.field("prices.close"@)),
        m.div_signals,
        m.field("dividends.share"@),
        m.field("dividends.cash"@),
    )
}

/// The net asset value of a book, day by day.
pub open spec fn nav_record(args: Args, m: MarketView, clock: Term, weights: Term) -> Term {
    t2(
        Op::Record,
        m.daily,
        net_value(frictionless(args.initial_cash), strategy_venue(m), clock, weights),
    )
}

/// The prediction target: the log returns with their tails held in.
pub open spec fn log_target(m: MarketView) -> Term {
    unary(Unary::Winsorize(Double { bits: TAIL }), m.log_return)
}

/// The parameters of the mean predictor: the features of a day predict the
/// target of the next, refitted on every rebalance over all of history.
pub open spec fn mean_params(args: Args, k: usize) -> Seq<(Seq<char>, ParamView)> {
    seq![
        ("target_offset"@, ParamView::Count(1)),
        ("refit_every"@, ParamView::Count(1)),
        ("max_periods"@, ParamView::Nothing),
        ("min_periods"@, ParamView::Count(MIN_PERIODS)),
        ("universe_size"@, ParamView::Count(k)),
        ("alpha"@, ParamView::Number(args.ridge_alpha)),
    ]
}

/// The parameters of the variance predictor.
pub open spec fn variance_params(k: usize) -> Seq<(Seq<char>, ParamView)> {
    seq![
        ("refit_every"@, ParamView::Count(1)),
        ("max_periods"@, ParamView::Count(COV_WINDOW)),
        ("min_periods"@, ParamView::Count(MIN_PERIODS)),
        ("universe_size"@, ParamView::Count(k)),
        ("factor_rank"@, ParamView::Count(FACTOR_RANK)),
        ("target"@, ParamView::Setting(Setting::SingleIndexTarget)),
    ]
}

/// The parameters of an optimizer: long-only, free to hold cash.
pub open spec fn optimizer_params(k: usize, delta: Double) -> Seq<(Seq<char>, ParamView)> {
    seq![
        ("logarithmic"@, ParamView::Flag(true)),
        ("max_universe_size"@, ParamView::Count(k)),
        ("mode"@, ParamView::Setting(Setting::MinMeanVariance)),
        ("bound"@, ParamView::Number(delta)),
        ("long_only"@, ParamView::Flag(true)),
        ("full_position"@, ParamView::Flag(false)),
        ("factor_rank"@, ParamView::Count(FACTOR_RANK)),
    ]
}

/// The predicted returns.
pub open spec fn predicted_returns(
    args: Args,
    m: MarketView,
    instants: Seq<Instant>,
    panel: Term,
) -> Term {
    port(
        1,
        module(
            "mean"@,
            mean_params(args, tradable(args, m)),
            seq![
                m.daily,
                panel,
                unary(Unary::Demean, log_target(m)),
                ticks(instants),
                index_weights(args, m, instants),
            ],
        ),
    )
}

/// The predicted covariance.
pub open spec fn predicted_covariance(
    args: Args,
    m: MarketView,
    instants: Seq<Instant>,
    panel: Term,
) -> Term {
    port(
        1,
        module(
            "variance"@,
            variance_params(tradable(args, m)),
            seq![
                m.daily,
                panel,
                log_target(m),
                ticks(instants),
                index_weights(args, m, instants),
            ],
        ),
    )
}

/// The optimizer of a risk aversion: its clock on port 0 and its weights on
/// port 1.
pub open spec fn optimizer(
    args: Args,
    m: MarketView,
    instants: Seq<Instant>,
    panel: Term,
    delta: Double,
) -> Term {
    module(
        "portfolio"@,
        optimizer_params(tradable(args, m), delta),
        seq![
            ticks(instants),
            index_weights(args, m, instants),
            predicted_returns(args, m, instants, panel),
            predicted_covariance(args, m, instants, panel),
        ],
    )
}

/// The variance predictor and every optimizer work at the same rank.
pub proof fn the_ranks_agree(k: usize, delta: Double)
    ensures
        variance_params(k).contains(("factor_rank"@, ParamView::Count(FACTOR_RANK))),
        optimizer_params(k, delta).contains(("factor_rank"@, ParamView::Count(FACTOR_RANK))),
{
    assert(variance_params(k)[4] == ("factor_rank"@, ParamView::Count(FACTOR_RANK)));
    assert(optimizer_params(k, delta)[6] == ("factor_rank"@, ParamView::Count(FACTOR_RANK)));
}

/// The optimizers of a sweep share both predictors: what they read does not
/// depend on the risk aversion.
pub proof fn optimizers_share_the_predictors(
    args: Args,
    m: MarketView,
    instants: Seq<Instant>,
    panel: Term,
    a: Double,
    b: Double,
)
    ensures
        ({
            let first = optimizer(args, m, instants, panel, a);
            let second = optimizer(args, m, instants, panel, b);
            first.inputs == second.inputs && (first == second <==> a == b)
        }),
{
    let first = optimizer(args, m, instants, panel, a);
    let second = optimizer(args, m, instants, panel, b);
    if first == second {
        assert(first.data->params[3] == second.data->params[3]);
    }
}

/// One variant of the sweep.
pub struct Variant {
    pub label: String,
    /// The net asset value, day by day.
    pub nav: Wire<Series>,
    /// The book of weights, rebalance by rebalance.
    pub book: Wire<Series>,
}

impl Variant {
    /// Whether this is the variant of a risk aversion.
    pub open spec fn is_of(
        self,
        b: Builder,
        args: Args,
        m: MarketView,
        instants: Seq<Instant>,
        panel: Term,
        delta: Figure,
    ) -> bool {
        let asked = optimizer(args, m, instants, panel, delta.value);
        &&& self.label@ == "delta_"@ + delta.text@
        &&& b.has(self.nav)
        &&& self.nav@ == nav_record(args, m, port(0, asked), port(1, asked))
        &&& b.has(self.book)
        &&& self.book@ == t2(Op::Record, port(0, asked), port(1, asked))
    }
}

/// Why the strategy cannot be wired.
#[derive(Debug)]
pub enum StrategyError {
    /// The universe or the market data do not suffice.
    Plan(PlanError),
    /// The feature panel cannot be built.
    Features(FeatureError),
}

impl StrategyError {
    /// The message about the error.
    pub open spec fn message(self) -> Seq<char> {
        match self {
            StrategyError::Plan(e) => e.message(),
            StrategyError::Features(e) => e.message(),
        }
    }

    /// The message about the error.
    pub fn text(&self) -> (r: String)
        ensures
            r@ == self.message(),
    {
        match self {
            StrategyError::Plan(e) => e.text(),
            StrategyError::Features(e) => e.text(),
        }
    }
}

/// The wired strategy.
pub struct Strategy {
    pub features: Features,
    /// The net asset value of the cap-weighted index, day by day.
    pub index_nav: Wire<Series>,
    /// The variants, in the order of the sweep.
    pub variants: Vec<Variant>,
}

/// The wires that the variants share.
struct Shared {
    k: usize,
    venue: Venue,
    rebalance: Wire<Pulse>,
    universe: Wire<Vector>,
    mean: Wire<Vector>,
    covariance: Wire<Matrix>,
}

impl Shared {
    spec fn right(
        self,
        b: Builder,
        args: Args,
        m: MarketView,
        instants: Seq<Instant>,
        panel: Term,
    ) -> bool {
        &&& self.k == tradable(args, m)
        &&& self.venue.belongs(b)
        &&& self.venue@ == strategy_venue(m)
        &&& self.venue.daily@ == m.daily
        &&& b.has(self.rebalance)
        &&& self.rebalance@ == ticks(instants)
        &&& b.has(self.universe)
        &&& self.universe@ == index_weights(args, m, instants)
        &&& b.has(self.mean)
        &&& self.mean@ == predicted_returns(args, m, instants, panel)
        &&& b.has(self.covariance)
        &&& self.covariance@ == predicted_covariance(args, m, instants, panel)
    }
}

/// Wires a predictor: what it predicts is on port 1.
fn build_predictor<K>(
    b: &mut Builder,
    name: &str,
    params: Vec<(String, Param)>,
    daily: Wire<Pulse>,
    panel: Wire<Matrix>,
    target: Wire<Vector>,
    rebalance: Wire<Pulse>,
    universe: Wire<Vector>,
) -> (r: Wire<K>)
    requires
        old(b).ordered(),
        old(b).has(daily),
        old(b).has(panel),
        old(b).has(target),
        old(b).has(rebalance),
        old(b).has(universe),
    ensures
        final(b).grown(*old(b)),
        final(b).has(r),
        r@ == port(
            1,
            module(
                name@,
                params_view(params@),
                seq![daily@, panel@, target@, rebalance@, universe@],
            ),
        ),
{
    let inputs = vec![
        daily.index(),
        panel.index(),
        target.index(),
        rebalance.index(),
        universe.index(),
    ];
    let ghost given = seq![daily@, panel@, target@, rebalance@, universe@];
    let both: Wire<Bundle> = b.module(name, params, inputs, Ghost(given));
    b.output(1, both)
}

/// Wires one variant of the sweep: its optimizer, its trader and its two
/// records.
fn build_variant(
    b: &mut Builder,
    args: &Args,
    shared: &Shared,
    delta: &Figure,
    Ghost(m): Ghost<MarketView>,
    Ghost(instants): Ghost<Seq<Instant>>,
    Ghost(panel): Ghost<Term>,
) -> (r: Variant)
    requires
        old(b).ordered(),
        shared.right(*old(b), *args, m, instants, panel),
    ensures
        final(b).grown(*old(b)),
        r.is_of(*final(b), *args, m, instants, panel, *delta),
{
    let params = vec![
        param("logarithmic", Param::Flag(true)),
        param("max_universe_size", Param::Count(shared.k)),
        param("mode", Param::Setting(Setting::MinMeanVariance)),
        param("bound", Param::Number(delta.value)),
        param("long_only", Param::Flag(true)),
        param("full_position", Param::Flag(false)),
        param("factor_rank", Param::Count(FACTOR_RANK)),
    ];
    assert(params_view(params@) =~= optimizer_params(shared.k, delta.value));
    let inputs = vec![
        shared.rebalance.index(),
        shared.universe.index(),
        shared.mean.index(),
        shared.covariance.index(),
    ];
    let ghost given = seq![
        shared.rebalance@,
        shared.universe@,
        shared.mean@,
        shared.covariance@,
    ];
    let asked: Wire<Bundle> = b.module("portfolio", params, inputs, Ghost(given));
    let clock: Wire<Pulse> = b.output(0, asked);
    let weights: Wire<Vector> = b.output(1, asked);
    let value = follow_frictionless(b, args.initial_cash, &shared.venue, clock, weights);
    let nav = b.record(shared.venue.daily, value);
    let book = b.record(clock, weights);
    Variant { label: "delta_".to_string().concat(delta.text.as_str()), nav, book }
}

/// Wires the strategy over the market data: the feature panel, the universe,
/// both predictors, one variant per risk aversion, and the index.
///
/// `instants` is the rebalance calendar, and `catalog` is the Alpha101
/// catalog, needed when it is selected. A universe of less than two symbols,
/// a missing field, or a selection without a panel is refused.
#[verifier::rlimit(40)]
pub fn build_strategy(
    b: &mut Builder,
    args: &Args,
    m: &MarketData,
    instants: Vec<Instant>,
    catalog: Option<Catalog>,
) -> (r: Result<Strategy, StrategyError>)
    requires
        old(b).ordered(),
        m.belongs(*old(b)),
        args.features@.contains(FeatureSet::Alpha101) ==> catalog is Some,
        args.features@.contains(FeatureSet::Alpha101) ==> catalog->0.ctx.belongs(*old(b)),
    ensures
        final(b).grown(*old(b)),
        match r {
            Ok(s) => {
                &&& feasible(tradable(*args, m@), m@, fields_read(*args))
                &&& builds(*final(b), m@, args.features@, given(catalog), Ok(s.features))
                &&& final(b).has(s.index_nav)
                &&& s.index_nav@ == nav_record(
                    *args,
                    m@,
                    ticks(instants@),
                    index_weights(*args, m@, instants@),
                )
                &&& s.variants@.len() == args.risk_aversion@.len()
                &&& forall|i: int|
                    0 <= i < s.variants@.len() ==> (#[trigger] s.variants@[i]).is_of(
                        *final(b),
                        *args,
                        m@,
                        instants@,
                        s.features.panel@,
                        args.risk_aversion@[i],
                    )
            },
            Err(StrategyError::Plan(e)) => infeasible(
                tradable(*args, m@),
                m@,
                fields_read(*args),
                e,
            ),
            Err(StrategyError::Features(e)) => {
                &&& feasible(tradable(*args, m@), m@, fields_read(*args))
                &&& builds(*final(b), m@, args.features@, given(catalog), Err(e))
            },
        },
{
    let k = args.resolved_universe_size(m.n);
    let basic = selects(&args.features, FeatureSet::Basic);
    let mut fields: Vec<&'static str> = Vec::new();
    note(&mut fields, PAID_FIELDS.as_slice());
    assert(fields@ =~= PAID_FIELDS@);
    if basic {
        note(&mut fields, BASIC_FIELDS.as_slice());
    }
    assert(fields@ =~= PAID_FIELDS@ + names_if(basic, BASIC_FIELDS@));
    note(&mut fields, TRADED_FIELDS.as_slice());
    if let Some(e) = examine(k, m, &fields) {
        return Err(StrategyError::Plan(e));
    }
    proof {
        has_both(m@, PAID_FIELDS@ + names_if(basic, BASIC_FIELDS@), TRADED_FIELDS@);
        has_both(m@, PAID_FIELDS@, names_if(basic, BASIC_FIELDS@));
        assert(m@.has_field(PAID_FIELDS@[0]@));
        assert(m@.has_field(PAID_FIELDS@[1]@));
        assert(m@.has_field(TRADED_FIELDS@[0]@));
        assert(m@.has_field(TRADED_FIELDS@[1]@));
    }
    let ghost ticked = instants@;
    let features = match build_features(b, m, &args.features, catalog) {
        Ok(features) => features,
        Err(e) => {
            return Err(StrategyError::Features(e));
        },
    };
    let ghost panel = features.panel@;
    let ghost shown = *b;
    assert(m.belongs(*b));
    let daily = m.daily;
    let share_divs = m.field("dividends.share");
    let cash_divs = m.field("dividends.cash");
    let rebalance = b.ticks(instants);
    let circulating = m.field("shares.circulating");
    let universe = build_cap_weighted_universe(b, m.close, circulating, rebalance, k);
    let closes = m.field("prices.close");
    let (flags, bids, asks) = build_quotes(b, m.price_signals, closes);
    let venue = Venue {
        daily,
        flags,
        bids,
        asks,
        div_signals: m.div_signals,
        share_divs,
        cash_divs,
    };
    assert(venue@ =~= strategy_venue(m@));
    let target = b.unary(Unary::Winsorize(Double { bits: TAIL }), m.log_return);
    let demeaned = b.unary(Unary::Demean, target);
    let params = vec![
        param("target_offset", Param::Count(1)),
        param("refit_every", Param::Count(1)),
        param("max_periods", Param::Nothing),
        param("min_periods", Param::Count(MIN_PERIODS)),
        param("universe_size", Param::Count(k)),
        param("alpha", Param::Number(args.ridge_alpha)),
    ];
    assert(params_view(params@) =~= mean_params(*args, k));
    let mean: Wire<Vector> = build_predictor(
        b,
        "mean",
        params,
        daily,
        features.panel,
        demeaned,
        rebalance,
        universe,
    );
    let params = vec![
        param("refit_every", Param::Count(1)),
        param("max_periods", Param::Count(COV_WINDOW)),
        param("min_periods", Param::Count(MIN_PERIODS)),
        param("universe_size", Param::Count(k)),
        param("factor_rank", Param::Count(FACTOR_RANK)),
        param("target", Param::Setting(Setting::SingleIndexTarget)),
    ];
    assert(params_view(params@) =~= variance_params(k));
    let covariance: Wire<Matrix> = build_predictor(
        b,
        "variance",
        params,
        daily,
        features.panel,
        target,
        rebalance,
        universe,
    );
    let index_value = follow_frictionless(b, args.initial_cash, &venue, rebalance, universe);
    let index_nav = b.record(daily, index_value);
    let shared = Shared { k, venue, rebalance, universe, mean, covariance };
    assert(shared.right(*b, *args, m@, ticked, panel));
    let mut variants: Vec<Variant> = Vec::new();
    for i in 0..args.risk_aversion.len()
        invariant
            b.grown(*old(b)),
            b.keeps(shown),
            b.has(index_nav),
            shared.right(*b, *args, m@, ticked, panel),
            variants@.len() == i,
            forall|j: int|
                0 <= j < i ==> (#[trigger] variants@[j]).is_of(
                    *b,
                    *args,
                    m@,
                    ticked,
                    panel,
                    args.risk_aversion@[j],
                ),
    {
        let variant = build_variant(
            b,
            args,
            &shared,
            &args.risk_aversion[i],
            Ghost(m@),
            Ghost(ticked),
            Ghost(panel),
        );
        variants.push(variant);
    }
    Ok(Strategy { features, index_nav, variants })
}

/// Both predictors learn the daily log returns of the adjusted close with
/// their tails held in: the variance predictor as they are, and the mean
/// predictor less their mean over the stocks. Both read the same panel, the
/// same calendar and the universe that the optimizer chooses from, and the
/// optimizer reads what both predict.
pub proof fn both_predictors_learn_log_returns(
    run: Run,
    args: Args,
    m: MarketView,
    instants: Seq<Instant>,
    panel: Term,
    delta: Double,
)
    ensures
        ({
            let asked = optimizer(args, m, instants, panel, delta);
            let mean_model = asked.inputs[2].inputs[0];
            let variance_model = asked.inputs[3].inputs[0];
            let target = variance_model.inputs[2];
            let demeaned = mean_model.inputs[2];
            &&& asks(asked, "portfolio"@)
            &&& asks(mean_model, "mean"@)
            &&& asks(variance_model, "variance"@)
            &&& asked.inputs.len() == 4
            &&& asked.inputs[2].op == Op::Port(1)
            &&& asked.inputs[3].op == Op::Port(1)
            &&& target.op == Op::Unary(Unary::Winsorize(Double { bits: TAIL }))
            &&& target.inputs == seq![m.log_return]
            &&& demeaned.op == Op::Unary(Unary::Demean)
            &&& demeaned.inputs == seq![target]
            &&& forall|lane: int, now: int|
                known(run, target, lane, now) ==> #[trigger] value(run, demeaned, lane, now)
                    == Some(
                    num(run, target, lane, now) - mean(cross(run, target, now), run.lanes),
                )
            &&& mean_model.inputs[0] == m.daily
            &&& variance_model.inputs[0] == m.daily
            &&& mean_model.inputs[1] == panel
            &&& variance_model.inputs[1] == panel
            &&& mean_model.inputs[3] == ticks(instants)
            &&& variance_model.inputs[3] == ticks(instants)
            &&& asked.inputs[0] == ticks(instants)
            &&& mean_model.inputs[4] == asked.inputs[1]
            &&& variance_model.inputs[4] == asked.inputs[1]
            &&& forall|lane: int, now: int| #[trigger]
                value(run, asked.inputs[1], lane, now) == Some(
                    cap_weight(
                        circulating_cap(
                            run,
                            ticks(instants),
                            m.close,
                            m.field("shares.circulating"@),
                            now,
                        ),
                        if args.universe_size == 0 {
                            m.n as nat
                        } else {
                            args.universe_size as nat
                        },
                        run.lanes,
                        lane,
                    ),
                )
        }),
{
    broadcast use group_values;

    let asked = optimizer(args, m, instants, panel, delta);
    let target = log_target(m);
    let universe = index_weights(args, m, instants);
    let mean_model = asked.inputs[2].inputs[0];
    let variance_model = asked.inputs[3].inputs[0];
    assert(variance_model.inputs[2] == target);
    assert(mean_model.inputs[2] == unary(Unary::Demean, target));
    assert(asked.inputs[1] == universe);
    assert forall|lane: int, now: int|
        known(run, target, lane, now) implies #[trigger] value(
        run,
        mean_model.inputs[2],
        lane,
        now,
    ) == Some(num(run, target, lane, now) - mean(cross(run, target, now), run.lanes)) by {
        assert(cross(run, target, now)(lane) == value(run, target, lane, now));
    }
    assert forall|lane: int, now: int| #[trigger]
        value(run, universe, lane, now) == Some(
            cap_weight(
                circulating_cap(
                    run,
                    ticks(instants),
                    m.close,
                    m.field("shares.circulating"@),
                    now,
                ),
                tradable(args, m) as nat,
                run.lanes,
                lane,
            ),
        ) by {
        the_universe_weighs_circulating_caps(
            run,
            ticks(instants),
            m.close,
            m.field("shares.circulating"@),
            tradable(args, m),
            lane,
            now,
        );
    }
}

/// The settings reach the predictors and the optimizer under their own names:
/// the features of a day predict the return of the next, both predictors are
/// refitted on every rebalance, and the optimizer holds no shorts and may
/// hold cash.
pub proof fn the_settings_reach_the_predictors(
    args: Args,
    m: MarketView,
    instants: Seq<Instant>,
    panel: Term,
    delta: Double,
)
    ensures
        ({
            let asked = optimizer(args, m, instants, panel, delta);
            let mean_model = asked.inputs[2].inputs[0];
            let variance_model = asked.inputs[3].inputs[0];
            let k = if args.universe_size == 0 {
                m.n
            } else {
                args.universe_size
            };
            &&& is_told(mean_model, "target_offset"@, ParamView::Count(1))
            &&& is_told(mean_model, "refit_every"@, ParamView::Count(1))
            &&& is_told(mean_model, "max_periods"@, ParamView::Nothing)
            &&& is_told(mean_model, "min_periods"@, ParamView::Count(63))
            &&& is_told(mean_model, "universe_size"@, ParamView::Count(k))
            &&& is_told(mean_model, "alpha"@, ParamView::Number(args.ridge_alpha))
            &&& is_told(variance_model, "refit_every"@, ParamView::Count(1))
            &&& is_told(variance_model, "max_periods"@, ParamView::Count(252))
            &&& is_told(variance_model, "min_periods"@, ParamView::Count(63))
            &&& is_told(variance_model, "universe_size"@, ParamView::Count(k))
            &&& is_told(variance_model, "factor_rank"@, ParamView::Count(20))
            &&& is_told(
                variance_model,
                "target"@,
                ParamView::Setting(Setting::SingleIndexTarget),
            )
            &&& is_told(asked, "logarithmic"@, ParamView::Flag(true))
            &&& is_told(asked, "max_universe_size"@, ParamView::Count(k))
            &&& is_told(asked, "mode"@, ParamView::Setting(Setting::MinMeanVariance))
            &&& is_told(asked, "bound"@, ParamView::Number(delta))
            &&& is_told(asked, "long_only"@, ParamView::Flag(true))
            &&& is_told(asked, "full_position"@, ParamView::Flag(false))
            &&& is_told(asked, "factor_rank"@, ParamView::Count(20))
        }),
{
    let asked = optimizer(args, m, instants, panel, delta);
    let mean_model = asked.inputs[2].inputs[0];
    let variance_model = asked.inputs[3].inputs[0];
    let p = asked.data->params;
    assert(p.contains(p[0]) && p.contains(p[1]) && p.contains(p[2]) && p.contains(p[3])
        && p.contains(p[4]) && p.contains(p[5]) && p.contains(p[6]));
    let q = mean_model.data->params;
    assert(q.contains(q[0]) && q.contains(q[1]) && q.contains(q[2]) && q.contains(q[3])
        && q.contains(q[4]) && q.contains(q[5]));
    let r = variance_model.data->params;
    assert(r.contains(r[0]) && r.contains(r[1]) && r.contains(r[2]) && r.contains(r[3])
        && r.contains(r[4]) && r.contains(r[5]));
}

/// The index and every variant are traded alike: without fees, at the quotes
/// of the next trading day, against the quotes of the carried closes and the
/// dividends paid. They differ in the weights and their clock alone.
pub proof fn every_book_is_traded_alike(args: Args, m: MarketView, clock: Term, weights: Term)
    ensures
        ({
            let nav = nav_record(args, m, clock, weights);
            let account = nav.inputs[1].inputs[0];
            let book = account.inputs[1].inputs[0];
            &&& nav.op == Op::Record
            &&& nav.inputs[0] == m.daily
            &&& nav.inputs[1].op == Op::Port(2)
            &&& account.op == (Op::Benchmark { delayed: true, initial_cash: args.initial_cash })
            &&& account.inputs[0] == m.daily
            &&& book.op matches Op::Quotes { .. }
            &&& book.inputs == seq![m.price_signals, m.field("prices.close"@)]
            &&& account.inputs[1].op == Op::Port(0)
            &&& account.inputs[2].op == Op::Port(1)
            &&& account.inputs[2].inputs == seq![book]
            &&& account.inputs[3].op == Op::Port(2)
            &&& account.inputs[3].inputs == seq![book]
            &&& account.inputs[4] == m.div_signals
            &&& account.inputs[5] == m.field("dividends.share"@)
            &&& account.inputs[6] == m.field("dividends.cash"@)
            &&& account.inputs[7] == clock
            &&& account.inputs[8] == weights
        }),
{
    let book = quote_book(m.price_signals, m.field("prices.close"@));
    a_trader_reads_its_venue(
        frictionless(args.initial_cash),
        m.daily,
        book,
        m.div_signals,
        m.field("dividends.share"@),
        m.field("dividends.cash"@),
        clock,
        weights,
    );
}

/// What a variant trades is what it records: both its net asset value and its
/// book are of the weights on the second port of its optimizer, on the clock
/// of the first, and its optimizer is told its own risk aversion.
pub proof fn a_variant_trades_its_book(
    v: Variant,
    b: Builder,
    args: Args,
    m: MarketView,
    instants: Seq<Instant>,
    panel: Term,
    delta: Figure,
)
    requires
        v.is_of(b, args, m, instants, panel, delta),
    ensures
        ({
            let account = v.nav@.inputs[1].inputs[0];
            let (clock, weights) = (v.book@.inputs[0], v.book@.inputs[1]);
            &&& v.label@ == "delta_"@ + delta.text@
            &&& v.book@.op == Op::Record
            &&& account.inputs[7] == clock
            &&& account.inputs[8] == weights
            &&& clock.op == Op::Port(0)
            &&& weights.op == Op::Port(1)
            &&& clock.inputs == weights.inputs
            &&& asks(weights.inputs[0], "portfolio"@)
            &&& is_told(weights.inputs[0], "bound"@, ParamView::Number(delta.value))
        }),
{
    let asked = optimizer(args, m, instants, panel, delta.value);
    every_book_is_traded_alike(args, m, port(0, asked), port(1, asked));
    assert(v.book@.inputs[0] == port(0, asked) && v.book@.inputs[1] == port(1, asked));
    the_settings_reach_the_predictors(args, m, instants, panel, delta.value);
}

} // verus!
