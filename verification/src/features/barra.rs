//! The Barra-style risk factor catalog: the classic style descriptors, one
//! raw entry per descriptor.
//!
//! | Name | Factor | Spelling |
//! | --- | --- | --- |
//! | `SIZE` | Size | log of the total market cap |
//! | `BETA` | Beta | 1-year regression of daily returns on `$mkt` |
//! | `MOM` | Momentum | 2-year log return without the last month |
//! | `DASTD` | Residual Volatility | 1-year deviation of daily returns |
//! | `CMRA` | Residual Volatility | 1-year log price range |
//! | `HSIGMA` | Residual Volatility | residual deviation of `BETA` |
//! | `NLSIZE` | Non-linear Size | cube of standardized `SIZE`, orthogonal to it |
//! | `BTOP` | Book-to-Price | parent's equity / total market cap |
//! | `STOM`, `STOQ`, `STOA` | Liquidity | log of turnover over 1, 3, 12 months |
//! | `ETOP`, `CETOP` | Earnings Yield | profit, operating cash flow / market cap |
//! | `EGRO`, `SGRO` | Growth | yearly growth of profit, of revenue |
//! | `MLEV`, `DTOA`, `BLEV` | Leverage | market, asset and book leverage |
//!
//! The market series `$mkt` is the mean of the daily log returns weighted by
//! the previous trading day's circulating market cap, in every lane.
use vstd::prelude::*;

use crate::data::{MarketData, MarketView, all_in, named};
use crate::expr::{
    Context, ContextView, a_field_is_held, alike, alike_readings, alike_when_lowered, alike_with_field, extends,
    holds, keeps_place, lower_all, lowered_inside, names_apart, other_fields_are_held, readings,
    with_lowered,
};
use crate::features::basic::{market_cap, profit_ttm, turnover};
use crate::features::cicc_pv::{LOG_CLOSE, RET};
use crate::features::common::{
    a_year_compares_two_days, annualized, annualized_of, append, cash_flow_segments, enlist, growth, growth_of, has_equity,
    has_flow, income_segments, parent_equity, parent_equity_of, report_names, ttm, ttm_of,
};
use crate::features::formula::{
    call, group, minus, over, over2, put, quotient, spell_call, spell_group, spell_minus,
    spell_over, spell_over2, spell_quotient, spell_times, spelled, times,
};
use crate::features::keys::{
    formula_keys, formulas_stand, hand_keys, hands_stand, inside_is_under, joined_stand,
    more_stand, rising, stand,
};
use crate::graph::{
    Binary, Builder, Op, Rolling, Term, Unary, Vector, Window, Wire, binary, rolling, unary,
};
use crate::meaning::{
    Run, a_quotient_times_its_divisor, cross, days_long, group_values, known, no_less_than_one, num,
    value, weighted_mean,
};

verus! {

/// About one trading month, quarter and year, in ticks of the daily clock.
pub const M: usize = 21;

pub const Q: usize = 63;

pub const Y: usize = 252;

/// The look-back of `MOM` and the lag by which it leaves the last month out.
pub const MOM_T: usize = 504;

pub const MOM_L: usize = 21;

/// The fields that the catalog reads.
pub const BARRA_FIELDS: [&'static str; 15] = [
    "shares.circulating",
    "shares.total",
    "balance_sheet.equity.capital",
    "balance_sheet.equity.reserves",
    "balance_sheet.equity.parent_interests",
    "income_statement.report_year",
    "income_statement.report_day_of_year",
    "income_statement.profit",
    "cash_flow_statement.report_year",
    "cash_flow_statement.report_day_of_year",
    "cash_flow_statement.change.operating",
    "income_statement.profit.operating.income.revenue",
    "balance_sheet.assets",
    "balance_sheet.liab",
    "balance_sheet.liab.current",
];

/// The spelling of `BETA`.
pub open spec fn beta() -> Seq<char> {
    group(quotient(over2("Cov"@, RET@, "$mkt"@, Y as nat), over("Var"@, "$mkt"@, Y as nat)))
}

/// The variance of the returns that the market does not explain.
pub open spec fn unexplained() -> Seq<char> {
    group(
        minus(
            over("Var"@, RET@, Y as nat),
            times(over("Power"@, beta(), 2), over("Var"@, "$mkt"@, Y as nat)),
        ),
    )
}

/// The descriptors that are formulas. `HSIGMA` clamps a negative variance
/// difference at zero and leaves a missing one missing.
pub open spec fn style_list() -> Seq<(Seq<char>, Seq<char>)> {
    seq![
        ("BETA"@, beta()),
        (
            "MOM"@,
            minus(over("Ref"@, LOG_CLOSE@, MOM_L as nat), over("Ref"@, LOG_CLOSE@, MOM_T as nat)),
        ),
        ("DASTD"@, over("Std"@, RET@, Y as nat)),
        (
            "CMRA"@,
            minus(over("Max"@, LOG_CLOSE@, Y as nat), over("Min"@, LOG_CLOSE@, Y as nat)),
        ),
        (
            "HSIGMA"@,
            call("Sqrt"@, call("Greater"@, unexplained() + ", "@ + unexplained() + " * 0"@)),
        ),
        ("STOM"@, call("Log"@, over("Sum"@, "$turn"@, M as nat))),
        ("STOQ"@, call("Log"@, quotient(over("Sum"@, "$turn"@, Q as nat), "3"@))),
        ("STOA"@, call("Log"@, quotient(over("Sum"@, "$turn"@, Y as nat), "12"@))),
    ]
}

/// The descriptors that are formulas, as `(name, expression)`.
pub fn styles() -> (r: Vec<(String, String)>)
    ensures
        spelled(r@) == style_list(),
{
    let mut list: Vec<(String, String)> = Vec::new();
    assert(spelled(list@) =~= seq![]);
    let var_mkt = spell_over("Var", "$mkt", Y);
    let cov = spell_over2("Cov", RET, "$mkt", Y);
    let beta = spell_group(spell_quotient(cov.as_str(), var_mkt.as_str()).as_str());
    let explained = spell_times(
        spell_over("Power", beta.as_str(), 2).as_str(),
        var_mkt.as_str(),
    );
    let vdiff = spell_group(
        spell_minus(spell_over("Var", RET, Y).as_str(), explained.as_str()).as_str(),
    );
    put(&mut list, "BETA", beta);
    let recent = spell_over("Ref", LOG_CLOSE, MOM_L);
    let distant = spell_over("Ref", LOG_CLOSE, MOM_T);
    put(&mut list, "MOM", spell_minus(recent.as_str(), distant.as_str()));
    put(&mut list, "DASTD", spell_over("Std", RET, Y));
    let top = spell_over("Max", LOG_CLOSE, Y);
    let low = spell_over("Min", LOG_CLOSE, Y);
    put(&mut list, "CMRA", spell_minus(top.as_str(), low.as_str()));
    let pair = vdiff.clone().concat(", ").concat(vdiff.as_str()).concat(" * 0");
    put(&mut list, "HSIGMA", spell_call("Sqrt", spell_call("Greater", pair.as_str()).as_str()));
    let month = spell_over("Sum", "$turn", M);
    put(&mut list, "STOM", spell_call("Log", month.as_str()));
    let quarter = spell_over("Sum", "$turn", Q);
    put(
        &mut list,
        "STOQ",
        spell_call("Log", spell_quotient(quarter.as_str(), "3").as_str()),
    );
    let year = spell_over("Sum", "$turn", Y);
    put(&mut list, "STOA", spell_call("Log", spell_quotient(year.as_str(), "12").as_str()));
    list
}

/// The market series: returns weighted by yesterday's circulating market cap.
pub open spec fn market_series(v: ContextView, m: MarketView) -> Term {
    let cap = binary(Binary::Mul, m.close, m.field("shares.circulating"@));
    binary(
        Binary::MarketReturn,
        v.reading(RET@),
        rolling(Rolling::Lag, Window::Count(1), m.daily, cap),
    )
}

/// The context with the fields that the catalog adds, `$turn` and `$mkt`; the
/// daily return, lowered before `$mkt` is there, has its node at `at`.
pub open spec fn risk_context(v: ContextView, m: MarketView, at: int) -> ContextView {
    let turned = v.with_field("turn"@, turnover(m));
    let lowered = turned.lowered.insert(RET@, (at, turned.reading(RET@)));
    (ContextView { lowered, ..turned }).with_field("mkt"@, market_series(turned, m))
}

/// The size and the formula descriptors.
pub open spec fn style_catalog(v: ContextView, m: MarketView) -> Seq<(Seq<char>, Term)> {
    seq![("SIZE"@, unary(Unary::Ln, market_cap(m)))] + readings(v, style_list())
}

/// The descriptors of non-linear size, valuation, yield and growth.
pub open spec fn value_catalog(m: MarketView) -> Seq<(Seq<char>, Term)> {
    let cap = market_cap(m);
    let profit = profit_ttm(m);
    let cash = ttm_of(
        m.daily,
        annualized_of(m, m.cf_report_signals, "cash_flow_statement.change.operating"@),
    );
    let revenue = ttm_of(
        m.daily,
        annualized_of(
            m,
            m.income_report_signals,
            "income_statement.profit.operating.income.revenue"@,
        ),
    );
    seq![
        (
            "NLSIZE"@,
            unary(Unary::NonlinearSize, unary(Unary::Standardize, unary(Unary::Ln, cap))),
        ),
        ("BTOP"@, binary(Binary::Div, parent_equity_of(m), cap)),
        ("ETOP"@, binary(Binary::Div, profit, cap)),
        ("CETOP"@, binary(Binary::Div, cash, cap)),
        ("EGRO"@, growth_of(m.daily, profit)),
        ("SGRO"@, growth_of(m.daily, revenue)),
    ]
}

/// The descriptors of leverage. Liabilities are stored credit-negative;
/// long-term debt is what is not current.
pub open spec fn leverage_catalog(m: MarketView) -> Seq<(Seq<char>, Term)> {
    let cap = market_cap(m);
    let book = parent_equity_of(m);
    let debt = unary(Unary::Neg, m.field("balance_sheet.liab"@));
    let current = unary(Unary::Neg, m.field("balance_sheet.liab.current"@));
    let long = binary(Binary::Sub, debt, current);
    seq![
        ("MLEV"@, binary(Binary::Div, binary(Binary::Add, cap, long), cap)),
        ("DTOA"@, binary(Binary::Div, debt, m.field("balance_sheet.assets"@))),
        ("BLEV"@, binary(Binary::Div, binary(Binary::Add, book, long), book)),
    ]
}

/// The whole catalog over a context.
pub open spec fn barra_catalog(v: ContextView, m: MarketView) -> Seq<(Seq<char>, Term)> {
    style_catalog(risk_context(v, m, 0), m) + value_catalog(m) + leverage_catalog(m)
}

/// The keys of the whole catalog.
pub open spec fn barra_keys(m: MarketView) -> Seq<(Seq<char>, Option<Seq<char>>)> {
    seq![("SIZE"@, None::<Seq<char>>)] + formula_keys(style_list()) + hand_keys(value_catalog(m))
        + hand_keys(leverage_catalog(m))
}

/// Whether the fields of the catalog are there.
spec fn has_barra_fields(m: MarketView) -> bool {
    &&& m.has_field("shares.circulating"@)
    &&& m.has_field("shares.total"@)
    &&& has_equity(m)
    &&& has_flow(m, "income_statement.profit"@)
    &&& has_flow(m, "cash_flow_statement.change.operating"@)
    &&& has_flow(m, "income_statement.profit.operating.income.revenue"@)
    &&& m.has_field("balance_sheet.assets"@)
    &&& m.has_field("balance_sheet.liab"@)
    &&& m.has_field("balance_sheet.liab.current"@)
}

proof fn barra_fields_are_there(m: MarketView)
    requires
        m.has_all(BARRA_FIELDS@),
    ensures
        has_barra_fields(m),
{
    assert(m.has_field(BARRA_FIELDS@[0]@));
    assert(m.has_field(BARRA_FIELDS@[1]@));
    assert(m.has_field(BARRA_FIELDS@[2]@));
    assert(m.has_field(BARRA_FIELDS@[3]@));
    assert(m.has_field(BARRA_FIELDS@[4]@));
    assert(m.has_field(BARRA_FIELDS@[5]@));
    assert(m.has_field(BARRA_FIELDS@[6]@));
    assert(m.has_field(BARRA_FIELDS@[7]@));
    assert(m.has_field(BARRA_FIELDS@[8]@));
    assert(m.has_field(BARRA_FIELDS@[9]@));
    assert(m.has_field(BARRA_FIELDS@[10]@));
    assert(m.has_field(BARRA_FIELDS@[11]@));
    assert(m.has_field(BARRA_FIELDS@[12]@));
    assert(m.has_field(BARRA_FIELDS@[13]@));
    assert(m.has_field(BARRA_FIELDS@[14]@));
    report_names();
    income_segments();
    cash_flow_segments();
}

/// Registers `$turn` and `$mkt`, in the place of fields of these names.
/// Expressions lowered before keep their wires.
fn add_risk_fields(b: &mut Builder, ctx: &mut Context, m: &MarketData) -> (at: Ghost<int>)
    requires
        old(b).ordered(),
        m.belongs(*old(b)),
        old(ctx).belongs(*old(b)),
        m@.has_field("shares.circulating"@),
    ensures
        final(b).grown(*old(b)),
        final(ctx).belongs(*final(b)),
        final(ctx)@ == risk_context(old(ctx)@, m@, at@),
{
    let circulating = m.field("shares.circulating");
    let turn = b.binary(Binary::Div, m.volume, circulating);
    assert(ctx.belongs(*b));
    ctx.add_field("turn", turn);
    assert(ctx.belongs(*b));
    let ret = ctx.lower_str(b, RET);
    let circ_cap = b.binary(Binary::Mul, m.close, circulating);
    let cap_lag = b.rolling(Rolling::Lag, Window::Count(1), m.daily, circ_cap);
    let mkt = b.binary(Binary::MarketReturn, ret, cap_lag);
    assert(ctx.belongs(*b));
    ctx.add_field("mkt", mkt);
    assert(ctx.belongs(*b));
    Ghost(ret.at())
}

/// Where the daily return has its node does not matter to a reading.
proof fn places_do_not_matter(v: ContextView, m: MarketView, at: int)
    ensures
        forall|s: Seq<char>| #[trigger]
            risk_context(v, m, at).reading(s) == risk_context(v, m, 0).reading(s),
        readings(risk_context(v, m, at), style_list()) == readings(
            risk_context(v, m, 0),
            style_list(),
        ),
{
    assert forall|s: Seq<char>| #[trigger]
        risk_context(v, m, at).reading(s) == risk_context(v, m, 0).reading(s) by {}
    assert(readings(risk_context(v, m, at), style_list()) =~= readings(
        risk_context(v, m, 0),
        style_list(),
    ));
}

fn add_values(
    b: &mut Builder,
    m: &MarketData,
    size: Wire<Vector>,
    mc: Wire<Vector>,
    be: Wire<Vector>,
    entries: &mut Vec<(String, Wire<Vector>)>,
)
    requires
        old(b).ordered(),
        m.belongs(*old(b)),
        has_barra_fields(m@),
        old(b).has(size),
        old(b).has(mc),
        old(b).has(be),
        size@ == unary(Unary::Ln, market_cap(m@)),
        mc@ == market_cap(m@),
        be@ == parent_equity_of(m@),
        all_in(*old(b), old(entries)@),
    ensures
        final(b).grown(*old(b)),
        all_in(*final(b), final(entries)@),
        named(final(entries)@) == named(old(entries)@) + value_catalog(m@),
        final(entries)@.take(old(entries)@.len() as int) == old(entries)@,
        rising(final(entries)@, old(entries)@.len() as int, old(b).nodes().len() as int),
{
    let daily = m.daily;
    let size_z = b.unary(Unary::Standardize, size);
    let nlsize = b.unary(Unary::NonlinearSize, size_z);
    enlist(b, entries, "NLSIZE", nlsize);
    let btop = b.binary(Binary::Div, be, mc);
    enlist(b, entries, "BTOP", btop);
    let np = annualized(b, m, m.income_report_signals, "income_statement.profit");
    let np_ttm = ttm(b, daily, np);
    let etop = b.binary(Binary::Div, np_ttm, mc);
    enlist(b, entries, "ETOP", etop);
    let ocf = annualized(b, m, m.cf_report_signals, "cash_flow_statement.change.operating");
    let ocf_ttm = ttm(b, daily, ocf);
    let cetop = b.binary(Binary::Div, ocf_ttm, mc);
    enlist(b, entries, "CETOP", cetop);
    let rev = annualized(
        b,
        m,
        m.income_report_signals,
        "income_statement.profit.operating.income.revenue",
    );
    let rev_ttm = ttm(b, daily, rev);
    let egro = growth(b, daily, np_ttm);
    enlist(b, entries, "EGRO", egro);
    let sgro = growth(b, daily, rev_ttm);
    enlist(b, entries, "SGRO", sgro);
    assert(named(entries@) =~= named(old(entries)@) + value_catalog(m@));
    assert(entries@.take(old(entries)@.len() as int) =~= old(entries)@);
}

fn add_leverage(
    b: &mut Builder,
    m: &MarketData,
    mc: Wire<Vector>,
    be: Wire<Vector>,
    entries: &mut Vec<(String, Wire<Vector>)>,
)
    requires
        old(b).ordered(),
        m.belongs(*old(b)),
        has_barra_fields(m@),
        old(b).has(mc),
        old(b).has(be),
        mc@ == market_cap(m@),
        be@ == parent_equity_of(m@),
        all_in(*old(b), old(entries)@),
    ensures
        final(b).grown(*old(b)),
        all_in(*final(b), final(entries)@),
        named(final(entries)@) == named(old(entries)@) + leverage_catalog(m@),
        final(entries)@.take(old(entries)@.len() as int) == old(entries)@,
        rising(final(entries)@, old(entries)@.len() as int, old(b).nodes().len() as int),
{
    let ta = m.field("balance_sheet.assets");
    let liab = m.field("balance_sheet.liab");
    let current = m.field("balance_sheet.liab.current");
    let tl = b.unary(Unary::Neg, liab);
    let cl = b.unary(Unary::Neg, current);
    let ncl = b.binary(Binary::Sub, tl, cl);
    let mc_ncl = b.binary(Binary::Add, mc, ncl);
    let mlev = b.binary(Binary::Div, mc_ncl, mc);
    enlist(b, entries, "MLEV", mlev);
    let dtoa = b.binary(Binary::Div, tl, ta);
    enlist(b, entries, "DTOA", dtoa);
    let be_ncl = b.binary(Binary::Add, be, ncl);
    let blev = b.binary(Binary::Div, be_ncl, be);
    enlist(b, entries, "BLEV", blev);
    assert(named(entries@) =~= named(old(entries)@) + leverage_catalog(m@));
    assert(entries@.take(old(entries)@.len() as int) =~= old(entries)@);
}

/// Builds the style catalog, one `(name, raw value)` entry per descriptor,
/// after registering `$turn` and `$mkt` on the shared context.
pub fn build_features_barra(b: &mut Builder, ctx: &mut Context, m: &MarketData) -> (r: Vec<
    (String, Wire<Vector>),
>)
    requires
        old(b).ordered(),
        m.belongs(*old(b)),
        old(ctx).belongs(*old(b)),
        m@.has_all(BARRA_FIELDS@),
    ensures
        final(b).grown(*old(b)),
        final(ctx).belongs(*final(b)),
        exists|at: int| extends(final(ctx)@, #[trigger] risk_context(old(ctx)@, m@, at)),
        all_in(*final(b), r@),
        named(r@) == barra_catalog(old(ctx)@, m@),
        stand(final(ctx)@, r@, barra_keys(m@)),
{
    proof {
        barra_fields_are_there(m@);
    }
    let at = add_risk_fields(b, ctx, m);
    proof {
        places_do_not_matter(old(ctx)@, m@, at@);
    }
    let mut entries: Vec<(String, Wire<Vector>)> = Vec::new();
    assert(named(entries@) =~= seq![]);
    let total = m.field("shares.total");
    let mc = b.binary(Binary::Mul, m.close, total);
    let ghost before = *b;
    let size = b.unary(Unary::Ln, mc);
    let ghost low = b.nodes().len() - 1;
    proof {
        lowered_inside(*ctx, before);
    }
    enlist(b, &mut entries, "SIZE", size);
    let list = styles();
    assert(ctx.belongs(*b));
    let ghost risk = ctx@;
    let ghost high = b.nodes().len() as int;
    let lowered = lower_all(ctx, b, &list);
    let ghost first = entries@;
    let ghost size_key = seq![("SIZE"@, None::<Seq<char>>)];
    append(&mut entries, lowered);
    proof {
        assert forall|s: Seq<char>| #[trigger]
            ctx@.lowered.dom().contains(s) implies ctx@.lowered[s].0 < low
            || ctx@.lowered[s].0 >= high by {
            assert(keeps_place(ctx@, risk, s));
        }
        assert(named(first)[0].0 == first[0].0@);
        hands_stand(ctx@, first, size_key, low, high);
        assert forall|i: int| 0 <= i < lowered@.len() implies (#[trigger] lowered@[i]).0@
            == style_list()[i].0 by {
            assert(named(lowered@)[i].0 == lowered@[i].0@);
        }
        formulas_stand(ctx@, lowered@, style_list());
        joined_stand(ctx@, first, size_key, lowered@, formula_keys(style_list()), high);
        assert(all_in(*b, entries@)) by {
            assert forall|i: int| 0 <= i < entries@.len() implies b.has(
                (#[trigger] entries@[i]).1,
            ) by {
                if i < first.len() {
                    assert(entries@[i] == first[i]);
                } else {
                    assert(entries@[i] == lowered@[i - first.len()]);
                }
            }
        }
    }
    let ghost (e0, k0) = (entries@, size_key + formula_keys(style_list()));
    let ghost n0 = b.nodes().len() as int;
    proof {
        lowered_inside(*ctx, *b);
        inside_is_under(*b, e0);
    }
    let be = parent_equity(b, m);
    add_values(b, m, size, mc, be, &mut entries);
    let ghost (e1, k1) = (entries@, k0 + hand_keys(value_catalog(m@)));
    let ghost n1 = b.nodes().len() as int;
    proof {
        inside_is_under(*b, e1);
        more_stand(ctx@, e0, k0, e1, value_catalog(m@), n0, n1);
    }
    add_leverage(b, m, mc, be, &mut entries);
    proof {
        inside_is_under(*b, entries@);
        more_stand(
            ctx@,
            e1,
            k1,
            entries@,
            leverage_catalog(m@),
            n1,
            b.nodes().len() as int,
        );
    }
    entries
}

/// Contexts that are alike give the same catalog.
pub(crate) proof fn barra_of_alike(a: ContextView, v: ContextView, m: MarketView)
    requires
        alike(a, v),
    ensures
        barra_catalog(a, m) == barra_catalog(v, m),
{
    alike_with_field(a, v, "turn"@, turnover(m));
    let (a1, v1) = (a.with_field("turn"@, turnover(m)), v.with_field("turn"@, turnover(m)));
    assert(a1.reading(RET@) == v1.reading(RET@));
    alike_when_lowered(a1, v1, RET@, 0);
    let (a2, v2) = (with_lowered(a1, RET@), with_lowered(v1, RET@));
    alike_with_field(a2, v2, "mkt"@, market_series(a1, m));
    alike_readings(risk_context(a, m, 0), risk_context(v, m, 0), style_list());
}

/// Leverage counts long-term debt on top of what it is measured against, and
/// the debt ratio counts all debt. Liabilities and equity are stored
/// negative: `owed` and `due` are what is owed in all and within the year.
pub proof fn leverage_counts_debt(run: Run, v: ContextView, m: MarketView, lane: int, now: int)
    requires
        known(run, m.close, lane, now),
        known(run, m.field("shares.total"@), lane, now),
        known(run, m.field("balance_sheet.equity.capital"@), lane, now),
        known(run, m.field("balance_sheet.equity.reserves"@), lane, now),
        known(run, m.field("balance_sheet.equity.parent_interests"@), lane, now),
        known(run, m.field("balance_sheet.assets"@), lane, now),
        known(run, m.field("balance_sheet.liab"@), lane, now),
        known(run, m.field("balance_sheet.liab.current"@), lane, now),
    ensures
        ({
            let cap = num(run, m.close, lane, now) * num(run, m.field("shares.total"@), lane, now);
            let book = -num(run, m.field("balance_sheet.equity.capital"@), lane, now) - num(
                run,
                m.field("balance_sheet.equity.reserves"@),
                lane,
                now,
            ) - num(run, m.field("balance_sheet.equity.parent_interests"@), lane, now);
            let assets = num(run, m.field("balance_sheet.assets"@), lane, now);
            let owed = -num(run, m.field("balance_sheet.liab"@), lane, now);
            let due = -num(run, m.field("balance_sheet.liab.current"@), lane, now);
            let list = barra_catalog(v, m);
            let at = |i: int| value(run, list[i].1, lane, now);
            &&& list[15].0 == "MLEV"@
            &&& list[16].0 == "DTOA"@
            &&& list[17].0 == "BLEV"@
            &&& cap != 0real ==> at(15) is Some && at(15)->0 * cap == cap + (owed - due)
            &&& assets != 0real ==> at(16) is Some && at(16)->0 * assets == owed
            &&& book != 0real ==> at(17) is Some && at(17)->0 * book == book + (owed - due)
            &&& cap > 0real && owed >= due ==> at(15)->0 >= 1real
            &&& book > 0real && owed >= due ==> at(17)->0 >= 1real
        }),
{
    broadcast use group_values;

    let cap = num(run, market_cap(m), lane, now);
    let book = num(run, parent_equity_of(m), lane, now);
    let assets = num(run, m.field("balance_sheet.assets"@), lane, now);
    let owed = -num(run, m.field("balance_sheet.liab"@), lane, now);
    let due = -num(run, m.field("balance_sheet.liab.current"@), lane, now);
    let list = barra_catalog(v, m);
    assert(style_catalog(risk_context(v, m, 0), m).len() == 9);
    assert(list[15] == leverage_catalog(m)[0]);
    assert(list[16] == leverage_catalog(m)[1]);
    assert(list[17] == leverage_catalog(m)[2]);
    if cap != 0real {
        a_quotient_times_its_divisor(cap + (owed - due), cap);
        if cap > 0real && owed >= due {
            no_less_than_one(cap + (owed - due), cap);
        }
    }
    if assets != 0real {
        a_quotient_times_its_divisor(owed, assets);
    }
    if book != 0real {
        a_quotient_times_its_divisor(book + (owed - due), book);
        if book > 0real && owed >= due {
            no_less_than_one(book + (owed - due), book);
        }
    }
}

/// Size is the log of the market cap, and value and yield are fractions of
/// it: the parent's equity, the year's profit and the year's operating cash
/// flow.
pub proof fn values_are_fractions_of_the_cap(
    run: Run,
    v: ContextView,
    m: MarketView,
    lane: int,
    now: int,
)
    requires
        known(run, m.close, lane, now),
        known(run, m.field("shares.total"@), lane, now),
        known(run, m.field("balance_sheet.equity.capital"@), lane, now),
        known(run, m.field("balance_sheet.equity.reserves"@), lane, now),
        known(run, m.field("balance_sheet.equity.parent_interests"@), lane, now),
        known(run, ttm_of(m.daily, annualized_of(m, m.income_report_signals, "income_statement.profit"@)), lane, now),
        known(run, ttm_of(m.daily, annualized_of(m, m.cf_report_signals, "cash_flow_statement.change.operating"@)), lane, now),
        num(run, m.close, lane, now) * num(run, m.field("shares.total"@), lane, now) > 0real,
    ensures
        ({
            let cap = num(run, m.close, lane, now) * num(run, m.field("shares.total"@), lane, now);
            let book = -num(run, m.field("balance_sheet.equity.capital"@), lane, now) - num(run, m.field("balance_sheet.equity.reserves"@), lane, now) - num(run, m.field("balance_sheet.equity.parent_interests"@), lane, now);
            let profit = num(run, ttm_of(m.daily, annualized_of(m, m.income_report_signals, "income_statement.profit"@)), lane, now);
            let cash = num(run, ttm_of(m.daily, annualized_of(m, m.cf_report_signals, "cash_flow_statement.change.operating"@)), lane, now);
            let list = barra_catalog(v, m);
            let at = |i: int| value(run, list[i].1, lane, now);
            &&& list[0].0 == "SIZE"@
            &&& list[10].0 == "BTOP"@
            &&& list[11].0 == "ETOP"@
            &&& list[12].0 == "CETOP"@
            &&& at(0) == Some((run.ln)(cap))
            &&& at(10) is Some && at(10)->0 * cap == book
            &&& at(11) is Some && at(11)->0 * cap == profit
            &&& at(12) is Some && at(12)->0 * cap == cash
        }),
{
    broadcast use group_values;

    let cap = num(run, market_cap(m), lane, now);
    let list = barra_catalog(v, m);
    assert(list[0] == style_catalog(risk_context(v, m, 0), m)[0]);
    assert(style_catalog(risk_context(v, m, 0), m).len() == 9);
    assert(list[10] == value_catalog(m)[1]);
    assert(list[11] == value_catalog(m)[2]);
    assert(list[12] == value_catalog(m)[3]);
    a_quotient_times_its_divisor(num(run, parent_equity_of(m), lane, now), cap);
    a_quotient_times_its_divisor(num(run, ttm_of(m.daily, annualized_of(m, m.income_report_signals, "income_statement.profit"@)), lane, now), cap);
    a_quotient_times_its_divisor(num(run, ttm_of(m.daily, annualized_of(m, m.cf_report_signals, "cash_flow_statement.change.operating"@)), lane, now), cap);
}

/// The growth descriptors compare the year's profit, and the year's revenue,
/// with what they were a year before.
pub proof fn growth_is_over_a_year(run: Run, v: ContextView, m: MarketView, lane: int, now: int)
    requires
        ({
            let today = (run.back)(m.daily, now, 0);
            let past = (run.within)(m.daily, now, days_long(365)).first();
            let profit = ttm_of(m.daily, annualized_of(m, m.income_report_signals, "income_statement.profit"@));
            let revenue = ttm_of(m.daily, annualized_of(m, m.income_report_signals, "income_statement.profit.operating.income.revenue"@));
            &&& known(run, profit, lane, today)
            &&& known(run, profit, lane, past)
            &&& num(run, profit, lane, past) != 0real
            &&& known(run, revenue, lane, today)
            &&& known(run, revenue, lane, past)
            &&& num(run, revenue, lane, past) != 0real
        }),
    ensures
        ({
            let today = (run.back)(m.daily, now, 0);
            let past = (run.within)(m.daily, now, days_long(365)).first();
            let profit = ttm_of(m.daily, annualized_of(m, m.income_report_signals, "income_statement.profit"@));
            let revenue = ttm_of(m.daily, annualized_of(m, m.income_report_signals, "income_statement.profit.operating.income.revenue"@));
            let list = barra_catalog(v, m);
            &&& list[13].0 == "EGRO"@
            &&& list[14].0 == "SGRO"@
            &&& num(run, profit, lane, past) * (1real + num(run, list[13].1, lane, now)) == num(
                run,
                profit,
                lane,
                today,
            )
            &&& num(run, revenue, lane, past) * (1real + num(run, list[14].1, lane, now)) == num(
                run,
                revenue,
                lane,
                today,
            )
        }),
{
    let list = barra_catalog(v, m);
    assert(style_catalog(risk_context(v, m, 0), m).len() == 9);
    assert(list[13] == value_catalog(m)[4]);
    assert(list[14] == value_catalog(m)[5]);
    a_year_compares_two_days(run, m.daily, ttm_of(m.daily, annualized_of(m, m.income_report_signals, "income_statement.profit"@)), lane, now);
    a_year_compares_two_days(run, m.daily, ttm_of(m.daily, annualized_of(m, m.income_report_signals, "income_statement.profit.operating.income.revenue"@)), lane, now);
}

/// Non-linear size is what the engine makes of the standardized log of the
/// market cap.
pub proof fn nonlinear_size_is_of_the_size(v: ContextView, m: MarketView)
    ensures
        ({
            let list = barra_catalog(v, m);
            let cubed = list[9].1;
            let scored = cubed.inputs[0];
            &&& list[9].0 == "NLSIZE"@
            &&& cubed.op == Op::Unary(Unary::NonlinearSize)
            &&& scored.op == Op::Unary(Unary::Standardize)
            &&& scored.inputs == seq![list[0].1]
        }),
{
    let list = barra_catalog(v, m);
    assert(style_catalog(risk_context(v, m, 0), m).len() == 9);
    assert(list[9] == value_catalog(m)[0]);
    assert(list[0] == style_catalog(risk_context(v, m, 0), m)[0]);
    assert(list[9].1.inputs[0].inputs =~= seq![list[0].1]);
}

/// The market's return, on every lane, is the mean of the stocks' daily
/// returns weighted by close times circulating shares of the trading day
/// before.
pub proof fn the_market_is_weighed_by_yesterdays_caps(
    run: Run,
    v: ContextView,
    m: MarketView,
    lane: int,
    now: int,
)
    ensures
        ({
            let yesterday = (run.back)(m.daily, now, 1);
            let gains = |l: int| value(run, v.reading(RET@), l, now);
            let weights = |l: int|
                match (
                    value(run, m.close, l, yesterday),
                    value(run, m.field("shares.circulating"@), l, yesterday),
                ) {
                    (Some(price), Some(shares)) => Some(price * shares),
                    _ => None,
                };
            value(run, market_series(v, m), lane, now) == weighted_mean(
                gains,
                weights,
                run.lanes,
            )
        }),
{
    broadcast use group_values;

    let yesterday = (run.back)(m.daily, now, 1);
    let cap = binary(Binary::Mul, m.close, m.field("shares.circulating"@));
    let lagged = rolling(Rolling::Lag, Window::Count(1), m.daily, cap);
    let t = market_series(v, m);
    assert(t.inputs[0] == v.reading(RET@) && t.inputs[1] == lagged);
    let gains = |l: int| value(run, v.reading(RET@), l, now);
    let weights = |l: int|
        match (
            value(run, m.close, l, yesterday),
            value(run, m.field("shares.circulating"@), l, yesterday),
        ) {
            (Some(price), Some(shares)) => Some(price * shares),
            _ => None,
        };
    assert(gains =~= cross(run, v.reading(RET@), now));
    assert forall|l: int| #[trigger] weights(l) == cross(run, lagged, now)(l) by {
        assert(cross(run, lagged, now)(l) == value(run, lagged, l, now));
    }
    assert(weights =~= cross(run, lagged, now));
}

/// The catalog reads as `$turn` the share of a stock's circulating shares
/// that changed hands, and as `$mkt` the market's return.
pub proof fn the_catalog_adds_two_fields(
    run: Run,
    v: ContextView,
    m: MarketView,
    lane: int,
    now: int,
)
    requires
        names_apart(v),
        known(run, m.volume, lane, now),
        known(run, m.field("shares.circulating"@), lane, now),
        num(run, m.field("shares.circulating"@), lane, now) != 0real,
    ensures
        ({
            let full = risk_context(v, m, 0);
            &&& holds(full, "mkt"@, market_series(v.with_field("turn"@, turnover(m)), m))
            &&& holds(full, "turn"@, turnover(m))
            &&& num(run, turnover(m), lane, now) * num(
                run,
                m.field("shares.circulating"@),
                lane,
                now,
            ) == num(run, m.volume, lane, now)
        }),
{
    broadcast use group_values;

    a_quotient_times_its_divisor(
        num(run, m.volume, lane, now),
        num(run, m.field("shares.circulating"@), lane, now),
    );
    reveal_strlit("mkt");
    reveal_strlit("turn");
    let turned = v.with_field("turn"@, turnover(m));
    a_field_is_held(v, "turn"@, turnover(m));
    let with_return = ContextView {
        lowered: turned.lowered.insert(RET@, (0, turned.reading(RET@))),
        ..turned
    };
    let mkt = market_series(turned, m);
    let i = choose|i: int|
        0 <= i < turned.names.len() && i < turned.fields.len() && #[trigger] turned.names[i]
            == "turn"@ && turned.fields[i] == turnover(m);
    assert(with_return.names[i] == "turn"@ && with_return.fields[i] == turnover(m));
    a_field_is_held(with_return, "mkt"@, mkt);
    other_fields_are_held(with_return, "mkt"@, mkt, "turn"@, turnover(m));
    assert(with_return.with_field("mkt"@, mkt) == risk_context(v, m, 0));
}

} // verus!
