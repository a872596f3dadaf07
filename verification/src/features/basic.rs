//! The baseline feature catalog: a small hand-written set, one factor per
//! idiom.
use vstd::prelude::*;

use crate::data::{MarketData, MarketView, all_in, named};
use crate::features::common::{
    YEAR, a_year_compares_two_days, annualized, annualized_of, change_of, enlist, has_equity, has_flow, income_segments,
    parent_equity, parent_equity_of, report_names, ttm, ttm_of,
};
use crate::graph::{
    Binary, Builder, Op, Rolling, Term, Unary, Vector, Window, Wire, binary, rolling, unary,
};
use crate::time::Duration;
use crate::meaning::{
    Run, a_quotient_times_its_divisor, a_rolling_mean_is_a_mean, along, days_long, group_values, known,
    mean, num, present, value,
};

verus! {

/// The nanoseconds of 30 and of 90 days.
pub const MONTH: i64 = 2_592_000_000_000_000;

pub const QUARTER: i64 = 7_776_000_000_000_000;

/// The fields that the catalog reads.
pub const BASIC_FIELDS: [&'static str; 8] = [
    "shares.total",
    "income_statement.report_year",
    "income_statement.report_day_of_year",
    "income_statement.profit",
    "balance_sheet.equity.capital",
    "balance_sheet.equity.reserves",
    "balance_sheet.equity.parent_interests",
    "shares.circulating",
];

/// A window of 30 days.
pub open spec fn month() -> Window {
    Window::Span(Duration { nanos: MONTH })
}

/// A window of 90 days.
pub open spec fn quarter() -> Window {
    Window::Span(Duration { nanos: QUARTER })
}

/// The total market cap.
pub open spec fn market_cap(m: MarketView) -> Term {
    binary(Binary::Mul, m.close, m.field("shares.total"@))
}

/// The daily turnover.
pub open spec fn turnover(m: MarketView) -> Term {
    binary(Binary::Div, m.volume, m.field("shares.circulating"@))
}

/// The trailing-year net profit.
pub open spec fn profit_ttm(m: MarketView) -> Term {
    ttm_of(m.daily, annualized_of(m, m.income_report_signals, "income_statement.profit"@))
}

/// The catalog: reversal over a month, momentum over a year without its last
/// month, volatility over a quarter, size, book and earnings yield, and
/// turnover over a month. The two yields come from reports and are heavy
/// tailed, so they are ranked to percentiles.
pub open spec fn basic_catalog(m: MarketView) -> Seq<(Seq<char>, Term)> {
    let reversal = rolling(Rolling::Diff, month(), m.daily, m.log_adj);
    seq![
        ("REV_1M"@, reversal),
        ("MOM_12M"@, binary(Binary::Sub, change_of(m.daily, m.log_adj), reversal)),
        ("VOL_3M"@, rolling(Rolling::StdDev(0), quarter(), m.daily, m.log_return)),
        ("LN_MC"@, unary(Unary::Ln, market_cap(m))),
        (
            "BP_LR"@,
            unary(
                Unary::Percentile,
                binary(Binary::Div, parent_equity_of(m), market_cap(m)),
            ),
        ),
        (
            "EP_TTM"@,
            unary(Unary::Percentile, binary(Binary::Div, profit_ttm(m), market_cap(m))),
        ),
        ("TURN_1M"@, rolling(Rolling::Mean(0), month(), m.daily, turnover(m))),
    ]
}

proof fn basic_fields_are_there(m: MarketView)
    requires
        m.has_all(BASIC_FIELDS@),
    ensures
        m.has_field("shares.total"@),
        m.has_field("shares.circulating"@),
        has_equity(m),
        has_flow(m, "income_statement.profit"@),
{
    assert(m.has_field(BASIC_FIELDS@[0]@));
    assert(m.has_field(BASIC_FIELDS@[1]@));
    assert(m.has_field(BASIC_FIELDS@[2]@));
    assert(m.has_field(BASIC_FIELDS@[3]@));
    assert(m.has_field(BASIC_FIELDS@[4]@));
    assert(m.has_field(BASIC_FIELDS@[5]@));
    assert(m.has_field(BASIC_FIELDS@[6]@));
    assert(m.has_field(BASIC_FIELDS@[7]@));
    report_names();
    income_segments();
}

/// The baseline catalog, one `(name, value)` entry per feature.
pub fn build_features_basic(b: &mut Builder, m: &MarketData) -> (r: Vec<(String, Wire<Vector>)>)
    requires
        old(b).ordered(),
        m.belongs(*old(b)),
        m@.has_all(BASIC_FIELDS@),
    ensures
        final(b).grown(*old(b)),
        all_in(*final(b), r@),
        named(r@) == basic_catalog(m@),
        forall|i: int|
            0 <= i < r@.len() ==> old(b).nodes().len() <= (#[trigger] r@[i]).1.at(),
        forall|i: int, j: int|
            #![trigger r@[i], r@[j]]
            0 <= i < j < r@.len() ==> r@[i].1.at() < r@[j].1.at(),
{
    proof {
        basic_fields_are_there(m@);
    }
    let mut features: Vec<(String, Wire<Vector>)> = Vec::new();
    assert(named(features@) =~= seq![]);
    let month = Window::Span(Duration { nanos: MONTH });
    let quarter = Window::Span(Duration { nanos: QUARTER });
    let year = Window::Span(Duration { nanos: YEAR });
    let daily = m.daily;

    let total = m.field("shares.total");
    let cap = b.binary(Binary::Mul, m.close, total);
    let net_profit = annualized(b, m, m.income_report_signals, "income_statement.profit");
    let np_ttm = ttm(b, daily, net_profit);
    let equity = parent_equity(b, m);

    let rev_1m = b.rolling(Rolling::Diff, month, daily, m.log_adj);
    let mom_1y = b.rolling(Rolling::Diff, year, daily, m.log_adj);
    enlist(b, &mut features, "REV_1M", rev_1m);
    let mom_12m = b.binary(Binary::Sub, mom_1y, rev_1m);
    enlist(b, &mut features, "MOM_12M", mom_12m);

    let vol = b.rolling(Rolling::StdDev(0), quarter, daily, m.log_return);
    enlist(b, &mut features, "VOL_3M", vol);

    let size = b.unary(Unary::Ln, cap);
    enlist(b, &mut features, "LN_MC", size);

    let bp = b.binary(Binary::Div, equity, cap);
    let bp_rank = b.unary(Unary::Percentile, bp);
    enlist(b, &mut features, "BP_LR", bp_rank);
    let ep = b.binary(Binary::Div, np_ttm, cap);
    let ep_rank = b.unary(Unary::Percentile, ep);
    enlist(b, &mut features, "EP_TTM", ep_rank);

    let circulating = m.field("shares.circulating");
    let turn = b.binary(Binary::Div, m.volume, circulating);
    let turn_1m = b.rolling(Rolling::Mean(0), month, daily, turn);
    enlist(b, &mut features, "TURN_1M", turn_1m);
    features
}

/// Reversal is the log price change over 30 days; momentum is the change over
/// 365 days less the reversal.
pub proof fn momentum_leaves_the_month_out(run: Run, m: MarketView, lane: int, now: int)
    requires
        known(run, m.log_adj, lane, (run.back)(m.daily, now, 0)),
        known(run, m.log_adj, lane, (run.within)(m.daily, now, days_long(30)).first()),
        known(run, m.log_adj, lane, (run.within)(m.daily, now, days_long(365)).first()),
    ensures
        ({
            let today = num(run, m.log_adj, lane, (run.back)(m.daily, now, 0));
            let month_ago = num(
                run,
                m.log_adj,
                lane,
                (run.within)(m.daily, now, days_long(30)).first(),
            );
            let year_ago = num(
                run,
                m.log_adj,
                lane,
                (run.within)(m.daily, now, days_long(365)).first(),
            );
            let list = basic_catalog(m);
            &&& list.len() == 7
            &&& list[0].0 == "REV_1M"@
            &&& value(run, list[0].1, lane, now) == Some(today - month_ago)
            &&& list[1].0 == "MOM_12M"@
            &&& value(run, list[1].1, lane, now) == Some(month_ago - year_ago)
        }),
{
    broadcast use group_values;

    a_year_compares_two_days(run, m.daily, m.log_adj, lane, now);
}

/// Volatility is the deviation of the daily log returns over 90 days.
pub proof fn volatility_is_of_a_quarter(m: MarketView)
    ensures
        ({
            let list = basic_catalog(m);
            &&& list[2].0 == "VOL_3M"@
            &&& list[2].1.op == Op::Rolling(Rolling::StdDev(0), Window::Span(days_long(90)))
            &&& list[2].1.inputs == seq![m.daily, m.log_return]
        }),
{
}

/// Size is the log of the market cap, close times total shares. The two
/// yields rank the parent's equity, and the year's profit, as fractions of
/// it.
pub proof fn size_and_yields_are_told(run: Run, m: MarketView, lane: int, now: int)
    requires
        known(run, m.close, lane, now),
        known(run, m.field("shares.total"@), lane, now),
        known(run, m.field("balance_sheet.equity.capital"@), lane, now),
        known(run, m.field("balance_sheet.equity.reserves"@), lane, now),
        known(run, m.field("balance_sheet.equity.parent_interests"@), lane, now),
        known(run, ttm_of(m.daily, annualized_of(m, m.income_report_signals, "income_statement.profit"@)), lane, now),
        num(run, m.close, lane, now) * num(run, m.field("shares.total"@), lane, now) > 0real,
    ensures
        ({
            let cap = num(run, m.close, lane, now) * num(run, m.field("shares.total"@), lane, now);
            let book = -num(run, m.field("balance_sheet.equity.capital"@), lane, now) - num(run, m.field("balance_sheet.equity.reserves"@), lane, now) - num(run, m.field("balance_sheet.equity.parent_interests"@), lane, now);
            let profit = num(run, ttm_of(m.daily, annualized_of(m, m.income_report_signals, "income_statement.profit"@)), lane, now);
            let list = basic_catalog(m);
            &&& list[3].0 == "LN_MC"@
            &&& value(run, list[3].1, lane, now) == Some((run.ln)(cap))
            &&& list[4].0 == "BP_LR"@
            &&& list[4].1.op == Op::Unary(Unary::Percentile)
            &&& known(run, list[4].1.inputs[0], lane, now)
            &&& num(run, list[4].1.inputs[0], lane, now) * cap == book
            &&& list[5].0 == "EP_TTM"@
            &&& list[5].1.op == Op::Unary(Unary::Percentile)
            &&& known(run, list[5].1.inputs[0], lane, now)
            &&& num(run, list[5].1.inputs[0], lane, now) * cap == profit
        }),
{
    broadcast use group_values;

    let cap = num(run, market_cap(m), lane, now);
    let list = basic_catalog(m);
    assert(list[4].1.inputs[0] == binary(Binary::Div, parent_equity_of(m), market_cap(m)));
    assert(list[5].1.inputs[0] == binary(Binary::Div, profit_ttm(m), market_cap(m)));
    a_quotient_times_its_divisor(num(run, parent_equity_of(m), lane, now), cap);
    a_quotient_times_its_divisor(num(run, profit_ttm(m), lane, now), cap);
}

/// Turnover is the mean over 30 days of the part of the circulating shares
/// that changed hands.
pub proof fn turnover_is_a_monthly_mean(run: Run, m: MarketView, lane: int, now: int)
    ensures
        ({
            let days = (run.within)(m.daily, now, days_long(30));
            let traded = |i: int|
                match (
                    value(run, m.volume, lane, days[i]),
                    value(run, m.field("shares.circulating"@), lane, days[i]),
                ) {
                    (Some(volume), Some(shares)) => if shares == 0real {
                        None
                    } else {
                        Some(volume / shares)
                    },
                    _ => None,
                };
            let list = basic_catalog(m);
            &&& list[6].0 == "TURN_1M"@
            &&& present(traded, days.len()) > 0 ==> value(run, list[6].1, lane, now) == Some(
                mean(traded, days.len()),
            )
        }),
{
    broadcast use group_values;

    a_rolling_mean_is_a_mean(run, 0, month(), m.daily, turnover(m), lane, now);
    let days = (run.within)(m.daily, now, days_long(30));
    let traded = |i: int|
        match (
            value(run, m.volume, lane, days[i]),
            value(run, m.field("shares.circulating"@), lane, days[i]),
        ) {
            (Some(volume), Some(shares)) => if shares == 0real {
                None
            } else {
                Some(volume / shares)
            },
            _ => None,
        };
    let samples = along(run, turnover(m), lane, month(), m.daily, now);
    assert forall|i: int| #[trigger] traded(i) == samples(i) by {
        assert(samples(i) == value(run, turnover(m), lane, days[i]));
    }
    assert(traded =~= samples);
}

} // verus!
