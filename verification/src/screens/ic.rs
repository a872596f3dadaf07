//! The information coefficient of a feature: its correlation, over the
//! cross-section, with the return of the days that follow.
//!
//! The feature is lagged the full horizon, so it is correlated against the
//! return it could have predicted, never one it was computed from.
use vstd::prelude::*;

use crate::data::{MarketData, MarketView};
use crate::graph::{
    Binary, Builder, Matrix, Metric, Op, Pulse, Rolling, Series, Term, Unary, Vector, Window, Wire,
    binary, rolling, t1, t2, t3, texts, unary,
};
use crate::universe::{build_cap_weighted_universe, universe_of};
use crate::graph::PayloadView;
use crate::meaning::{
    Run, cap_weight, cross, group_values, is_late, is_relative_change, known, num,
    relative_changes_are_told, value,
};
use crate::universe::{circulating_cap, the_universe_weighs_circulating_caps};

verus! {

/// The correlation that a screen reads.
pub open spec fn correlation(rank: bool) -> Metric {
    if rank {
        Metric::RankIc
    } else {
        Metric::Ic
    }
}

/// The return over the horizon.
pub open spec fn forward_return(m: MarketView, horizon: usize) -> Term {
    rolling(Rolling::PctChange, Window::Count(horizon), m.daily, m.adj_close)
}

/// The weights of the greatest `k` stocks, chosen anew every trading day.
pub open spec fn daily_universe(m: MarketView, k: usize) -> Term {
    universe_of(m.daily, m.close, m.field("shares.circulating"@), k)
}

/// One for the stocks of the universe, missing for the others.
pub open spec fn membership(weights: Term) -> Term {
    unary(Unary::Signum, unary(Unary::MaskNonPositive, weights))
}

/// Column `i` of a panel, over the stocks of the universe alone when there is
/// one.
pub open spec fn screened(panel: Term, i: int, universe: Option<Term>) -> Term {
    let values = t1(Op::Column(i as usize), panel);
    match universe {
        Some(weights) => binary(Binary::Mul, values, membership(weights)),
        None => values,
    }
}

/// The information coefficient of column `i`, day by day.
pub open spec fn ic_record(
    m: MarketView,
    panel: Term,
    i: int,
    universe: Option<Term>,
    horizon: usize,
    rank: bool,
) -> Term {
    t2(
        Op::Record,
        m.daily,
        t3(
            Op::Metric(correlation(rank)),
            m.daily,
            rolling(
                Rolling::Lag,
                Window::Count(horizon),
                m.daily,
                screened(panel, i, universe),
            ),
            forward_return(m, horizon),
        ),
    )
}

/// Whether these are the information coefficients of the columns of a panel,
/// each with the column's name.
pub open spec fn are_ics(
    ics: Seq<(String, Wire<Series>)>,
    b: Builder,
    m: MarketView,
    names: Seq<Seq<char>>,
    panel: Term,
    universe: Option<Term>,
    horizon: usize,
    rank: bool,
) -> bool {
    &&& ics.len() == names.len()
    &&& forall|i: int|
        0 <= i < ics.len() ==> (#[trigger] ics[i]).0@ == names[i] && b.has(ics[i].1) && ics[i].1@
            == ic_record(m, panel, i, universe, horizon, rank)
}

/// A feature and the return it is correlated with lie apart: the feature is
/// read as many trading days back as the return reaches.
pub proof fn a_feature_is_lagged_by_its_horizon(
    m: MarketView,
    panel: Term,
    i: int,
    universe: Option<Term>,
    horizon: usize,
    rank: bool,
)
    ensures
        ({
            let scored = ic_record(m, panel, i, universe, horizon, rank).inputs[1];
            let feature = scored.inputs[1];
            let target = scored.inputs[2];
            &&& feature.op == Op::Rolling(Rolling::Lag, Window::Count(horizon))
            &&& target.op == Op::Rolling(Rolling::PctChange, Window::Count(horizon))
            &&& feature.inputs[0] == target.inputs[0]
        }),
{
}

/// The tradable cross-section of a screen.
pub(crate) fn build_universe(b: &mut Builder, m: &MarketData, k: usize) -> (r: Wire<Vector>)
    requires
        old(b).ordered(),
        m.belongs(*old(b)),
        m@.has_field("shares.circulating"@),
    ensures
        final(b).grown(*old(b)),
        final(b).has(r),
        r@ == daily_universe(m@, k),
{
    let circulating = m.field("shares.circulating");
    build_cap_weighted_universe(b, m.close, circulating, m.daily, k)
}

/// Wires the information coefficient of every column of a panel.
pub(crate) fn build_ics(
    b: &mut Builder,
    m: &MarketData,
    names: &Vec<String>,
    panel: Wire<Matrix>,
    universe: Option<Wire<Vector>>,
    horizon: usize,
    rank: bool,
    Ghost(weights): Ghost<Option<Term>>,
) -> (r: Vec<(String, Wire<Series>)>)
    requires
        old(b).ordered(),
        m.belongs(*old(b)),
        old(b).has(panel),
        match universe {
            Some(w) => old(b).has(w) && weights == Some(w@),
            None => weights is None,
        },
    ensures
        final(b).grown(*old(b)),
        are_ics(r@, *final(b), m@, texts(names@), panel@, weights, horizon, rank),
{
    let daily: Wire<Pulse> = m.daily;
    let realized = b.rolling(Rolling::PctChange, Window::Count(horizon), daily, m.adj_close);
    let mask: Option<Wire<Vector>> = match universe {
        Some(w) => {
            let positive = b.unary(Unary::MaskNonPositive, w);
            Some(b.unary(Unary::Signum, positive))
        },
        None => None,
    };
    let metric = if rank {
        Metric::RankIc
    } else {
        Metric::Ic
    };
    let mut out: Vec<(String, Wire<Series>)> = Vec::new();
    for i in 0..names.len()
        invariant
            b.grown(*old(b)),
            b.has(daily),
            daily@ == m@.daily,
            b.has(panel),
            b.has(realized),
            realized@ == forward_return(m@, horizon),
            metric == correlation(rank),
            match mask {
                Some(w) => b.has(w) && weights is Some && w@ == membership(weights->0),
                None => weights is None,
            },
            out@.len() == i,
            forall|j: int|
                0 <= j < i ==> (#[trigger] out@[j]).0@ == names@[j]@ && b.has(out@[j].1)
                    && out@[j].1@ == ic_record(m@, panel@, j, weights, horizon, rank),
    {
        let column = b.column(i, panel);
        let values = match mask {
            Some(w) => b.binary(Binary::Mul, column, w),
            None => column,
        };
        let behind = b.rolling(Rolling::Lag, Window::Count(horizon), daily, values);
        let ic = b.score(metric, daily, behind, realized);
        let series = b.record(daily, ic);
        out.push((names[i].clone(), series));
    }
    out
}

/// The return that a feature is held against is the fraction by which the
/// adjusted close changed over the horizon; the feature is read at its start;
/// and over a universe, a stock outside it has no feature and one inside it
/// keeps its own.
pub proof fn a_feature_is_held_against_the_return_after_it(
    run: Run,
    m: MarketView,
    panel: Term,
    i: int,
    universe: Option<Term>,
    horizon: usize,
    rank: bool,
)
    requires
        0 <= i <= usize::MAX,
    ensures
        ({
            let recorded = ic_record(m, panel, i, universe, horizon, rank);
            let scored = recorded.inputs[1];
            let late = scored.inputs[1];
            let feature = late.inputs[1];
            let column = Term {
                op: Op::Column(i as usize),
                data: PayloadView::Nothing,
                inputs: seq![panel],
            };
            &&& recorded.op == Op::Record
            &&& recorded.inputs[0] == m.daily
            &&& scored.op == Op::Metric(
                if rank {
                    Metric::RankIc
                } else {
                    Metric::Ic
                },
            )
            &&& scored.inputs.len() == 3
            &&& scored.inputs[0] == m.daily
            &&& is_late(run, horizon as nat, m.daily, feature, late)
            &&& is_relative_change(run, horizon as nat, m.daily, m.adj_close, scored.inputs[2])
            &&& universe is None ==> feature == column
            &&& universe is Some ==> forall|lane: int, now: int|
                known(run, universe->0, lane, now) ==> #[trigger] value(run, feature, lane, now)
                    == if num(run, universe->0, lane, now) > 0real {
                    value(run, column, lane, now)
                } else {
                    None
                }
        }),
{
    broadcast use group_values;

    let column = t1(Op::Column(i as usize), panel);
    let feature = screened(panel, i, universe);
    let scored = ic_record(m, panel, i, universe, horizon, rank).inputs[1];
    assert(scored.inputs[1].inputs[1] == feature);
    assert(column.inputs =~= seq![panel]);
    relative_changes_are_told(run, horizon, m.daily, feature);
    relative_changes_are_told(run, horizon, m.daily, m.adj_close);
    if universe is Some {
        let weights = universe->0;
        let masked = unary(Unary::MaskNonPositive, weights);
        let marked = membership(weights);
        assert forall|lane: int, now: int|
            known(run, weights, lane, now) implies #[trigger] value(run, feature, lane, now)
            == if num(run, weights, lane, now) > 0real {
            value(run, column, lane, now)
        } else {
            None
        } by {
            assert(cross(run, weights, now)(lane) == value(run, weights, lane, now));
            assert(cross(run, masked, now)(lane) == value(run, masked, lane, now));
            assert(value(run, marked, lane, now) == if num(run, weights, lane, now) > 0real {
                Some(1real)
            } else {
                None
            });
            if value(run, column, lane, now) is Some {
                let x = value(run, column, lane, now)->0;
                assert(x * 1real == x) by (nonlinear_arith);
            }
        }
    }
}

/// The universe of a screen is chosen anew every trading day, by close times
/// circulating shares.
pub proof fn a_screen_chooses_daily(run: Run, m: MarketView, k: usize, lane: int, now: int)
    ensures
        value(run, daily_universe(m, k), lane, now) == Some(
            cap_weight(
                circulating_cap(run, m.daily, m.close, m.field("shares.circulating"@), now),
                k as nat,
                run.lanes,
                lane,
            ),
        ),
{
    the_universe_weighs_circulating_caps(
        run,
        m.daily,
        m.close,
        m.field("shares.circulating"@),
        k,
        lane,
        now,
    );
}

} // verus!
