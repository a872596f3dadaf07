//! The CICC fundamental factors, wired by hand: report-cadence data cannot
//! ride the expression engine's daily clock.
//!
//! Flows are annualized from their year-to-date reports and averaged over the
//! trailing year; balance-sheet stocks are used at their latest carried
//! value. The panels store assets and incomes debit-positive, liabilities,
//! equity, expenses and cash outflows credit-negative; formulas negate them
//! where a positive magnitude is wanted. An average balance is the mean of
//! the present and the year-ago one; the delta (`*D`) and growth (`*_YOY`)
//! factors compare with the level a year ago.
//!
//! Every factor is a ratio with heavy tails, so the rank transform is part of
//! each definition: the catalog gives percentiles from zero to one.
use vstd::prelude::*;

use crate::data::{MarketData, MarketView, all_in, named};
use crate::double::Double;
use crate::features::basic::market_cap;
use crate::features::common::{
    YEAR, a_year_compares_two_days, annualized, annualized_of, cash_flow_segments, change, change_of, enlist, growth,
    growth_of, has_equity, has_flow, income_segments, parent_equity, parent_equity_of,
    report_names, ttm, ttm_of, year,
};
use crate::features::keys::{rising, under};
use crate::graph::{
    Binary, Builder, Op, PayloadView, Rolling, Term, Unary, Vector, Window, Wire, binary, rolling, t3, unary,
};
use crate::time::Duration;
use crate::meaning::{
    Run, a_quotient_times_its_divisor, a_rolling_sum_is_a_sum, along, days_long, group_values, half_of_one,
    known, num, number, patterns_are_numbers, total, value,
};

verus! {

/// The bit patterns of `0.5` and of `100.0`.
pub const HALF: u64 = 0x3fe0_0000_0000_0000;

pub const HUNDRED: u64 = 0x4059_0000_0000_0000;

/// The fields that the catalog reads.
pub const FUND_FIELDS: [&'static str; 29] = [
    "shares.total",
    "shares.circulating",
    "balance_sheet.equity.capital",
    "balance_sheet.equity.reserves",
    "balance_sheet.equity.parent_interests",
    "balance_sheet.assets",
    "balance_sheet.liab",
    "balance_sheet.assets.current",
    "balance_sheet.liab.current",
    "balance_sheet.assets.current.cash",
    "balance_sheet.assets.current.inventories",
    "balance_sheet.assets.current.receivables.notes_and_accounts",
    "balance_sheet.liab.current.payables.taxes",
    "income_statement.report_year",
    "income_statement.report_day_of_year",
    "income_statement.profit",
    "income_statement.profit.operating",
    "income_statement.profit.operating.income",
    "income_statement.profit.operating.income.revenue",
    "income_statement.profit.operating.expenses.costs",
    "cash_flow_statement.report_year",
    "cash_flow_statement.report_day_of_year",
    "cash_flow_statement.change.operating",
    "cash_flow_statement.change",
    "cash_flow_statement.change.investing.out.assets",
    "cash_flow_statement.change.operating.out.taxes",
    "dividends.cash",
    "balance_sheet.assets.current.noncurrent_due",
    "balance_sheet.assets.current.prepayments",
];

/// `x / y`.
pub open spec fn over(x: Term, y: Term) -> Term {
    binary(Binary::Div, x, y)
}

/// `-x`.
pub open spec fn negated(x: Term) -> Term {
    unary(Unary::Neg, x)
}

/// The circulating market cap.
pub open spec fn float_cap(m: MarketView) -> Term {
    binary(Binary::Mul, m.close, m.field("shares.circulating"@))
}

pub open spec fn assets(m: MarketView) -> Term {
    m.field("balance_sheet.assets"@)
}

pub open spec fn debt(m: MarketView) -> Term {
    negated(m.field("balance_sheet.liab"@))
}

pub open spec fn current_liabilities(m: MarketView) -> Term {
    negated(m.field("balance_sheet.liab.current"@))
}

/// The trailing-year flow of an income statement item.
pub open spec fn income(m: MarketView, name: Seq<char>) -> Term {
    ttm_of(m.daily, annualized_of(m, m.income_report_signals, name))
}

/// The trailing-year flow of a cash flow statement item.
pub open spec fn cash_flow(m: MarketView, name: Seq<char>) -> Term {
    ttm_of(m.daily, annualized_of(m, m.cf_report_signals, name))
}

pub open spec fn net_profit(m: MarketView) -> Term {
    income(m, "income_statement.profit"@)
}

pub open spec fn operating_profit(m: MarketView) -> Term {
    income(m, "income_statement.profit.operating"@)
}

pub open spec fn total_income(m: MarketView) -> Term {
    income(m, "income_statement.profit.operating.income"@)
}

pub open spec fn revenue(m: MarketView) -> Term {
    income(m, "income_statement.profit.operating.income.revenue"@)
}

/// Operating costs, stored negative.
pub open spec fn costs(m: MarketView) -> Term {
    income(m, "income_statement.profit.operating.expenses.costs"@)
}

pub open spec fn operating_cash(m: MarketView) -> Term {
    cash_flow(m, "cash_flow_statement.change.operating"@)
}

/// Gross profit: revenue less costs.
pub open spec fn gross(m: MarketView) -> Term {
    binary(Binary::Add, revenue(m), costs(m))
}

/// Invested capital: total assets less current liabilities.
pub open spec fn invested(m: MarketView) -> Term {
    binary(Binary::Sub, assets(m), current_liabilities(m))
}

/// Free cash flow: operating cash flow less capital expenditure.
pub open spec fn free_cash(m: MarketView) -> Term {
    binary(
        Binary::Add,
        operating_cash(m),
        cash_flow(m, "cash_flow_statement.change.investing.out.assets"@),
    )
}

/// The mean of the present and the year-ago balance.
pub open spec fn average(m: MarketView, x: Term) -> Term {
    unary(
        Unary::Scale(Double { bits: HALF }),
        binary(Binary::Add, x, rolling(Rolling::Lag, year(), m.daily, x)),
    )
}

/// The trailing-year cash dividend per share: the dividend events on the
/// daily clock, summed; a year without one pays zero.
pub open spec fn dividends(m: MarketView) -> Term {
    rolling(
        Rolling::Sum(0),
        year(),
        m.daily,
        t3(Op::Collect, m.div_signals, m.field("dividends.cash"@), m.daily),
    )
}

/// Return on equity.
pub open spec fn return_on_equity(m: MarketView) -> Term {
    over(net_profit(m), parent_equity_of(m))
}

pub open spec fn profitability(m: MarketView) -> Seq<(Seq<char>, Term)> {
    let roe = return_on_equity(m);
    let roa = over(net_profit(m), assets(m));
    let cfoa = over(operating_cash(m), assets(m));
    let roic = over(operating_profit(m), invested(m));
    let taxes = negated(m.field("balance_sheet.liab.current.payables.taxes"@));
    let paid = negated(cash_flow(m, "cash_flow_statement.change.operating.out.taxes"@));
    seq![
        ("ROE_TTM"@, roe),
        ("ROED"@, change_of(m.daily, roe)),
        ("ROA_TTM"@, roa),
        ("ROAD"@, change_of(m.daily, roa)),
        ("CFOA"@, cfoa),
        ("CFOAD"@, change_of(m.daily, cfoa)),
        ("ROIC_TTM"@, roic),
        ("ROICD"@, change_of(m.daily, roic)),
        (
            "TOE"@,
            over(binary(Binary::Add, change_of(m.daily, taxes), paid), parent_equity_of(m)),
        ),
    ]
}

pub open spec fn growths(m: MarketView) -> Seq<(Seq<char>, Term)> {
    let eps = over(net_profit(m), m.field("shares.total"@));
    seq![
        ("EPS_YOY"@, growth_of(m.daily, eps)),
        ("NP_YOY"@, growth_of(m.daily, net_profit(m))),
        ("OCF_YOY"@, growth_of(m.daily, operating_cash(m))),
        ("OP_YOY"@, growth_of(m.daily, operating_profit(m))),
        ("OR_YOY"@, growth_of(m.daily, total_income(m))),
        ("ROE_YOY"@, growth_of(m.daily, return_on_equity(m))),
        ("TA_YOY"@, growth_of(m.daily, assets(m))),
    ]
}

pub open spec fn efficiency(m: MarketView) -> Seq<(Seq<char>, Term)> {
    let at = over(total_income(m), average(m, assets(m)));
    let gpm = over(gross(m), revenue(m));
    let invt = over(
        negated(costs(m)),
        average(m, m.field("balance_sheet.assets.current.inventories"@)),
    );
    let opm = over(operating_profit(m), total_income(m));
    let rat = over(
        total_income(m),
        average(m, m.field("balance_sheet.assets.current.receivables.notes_and_accounts"@)),
    );
    seq![
        ("AT"@, at),
        ("ATD"@, change_of(m.daily, at)),
        ("GPMD"@, change_of(m.daily, gpm)),
        ("INVT"@, invt),
        ("INVTD"@, change_of(m.daily, invt)),
        ("NPM_TTM"@, over(net_profit(m), total_income(m))),
        ("OPM_TTM"@, opm),
        ("OPMD"@, change_of(m.daily, opm)),
        ("OPtoGR_TTM"@, over(operating_profit(m), gross(m))),
        ("RAT"@, rat),
        ("RATD"@, change_of(m.daily, rat)),
    ]
}

pub open spec fn quality(m: MarketView) -> Seq<(Seq<char>, Term)> {
    let apr = over(
        binary(Binary::Sub, net_profit(m), operating_cash(m)),
        operating_profit(m),
    );
    let csr = over(m.field("balance_sheet.assets.current.cash"@), current_liabilities(m));
    seq![
        ("APR_TTM"@, apr),
        ("APRD"@, change_of(m.daily, apr)),
        ("CSR"@, csr),
        ("CSRD"@, change_of(m.daily, csr)),
    ]
}

/// Quick assets: current assets without inventories, what falls due within
/// the year, and prepayments.
pub open spec fn quick(m: MarketView) -> Term {
    binary(
        Binary::Sub,
        binary(
            Binary::Sub,
            binary(
                Binary::Sub,
                m.field("balance_sheet.assets.current"@),
                m.field("balance_sheet.assets.current.inventories"@),
            ),
            m.field("balance_sheet.assets.current.noncurrent_due"@),
        ),
        m.field("balance_sheet.assets.current.prepayments"@),
    )
}

pub open spec fn safety(m: MarketView) -> Seq<(Seq<char>, Term)> {
    let ccr = over(operating_cash(m), current_liabilities(m));
    let cur = over(m.field("balance_sheet.assets.current"@), current_liabilities(m));
    let da = over(debt(m), assets(m));
    let dte = over(debt(m), parent_equity_of(m));
    let qr = over(quick(m), current_liabilities(m));
    seq![
        ("CCR"@, ccr),
        ("CCRD"@, change_of(m.daily, ccr)),
        ("CUR"@, cur),
        ("CURD"@, change_of(m.daily, cur)),
        ("Debt_Asset"@, da),
        ("DAD"@, change_of(m.daily, da)),
        ("DTE"@, dte),
        ("DTED"@, change_of(m.daily, dte)),
        ("QR"@, qr),
        ("QRD"@, change_of(m.daily, qr)),
    ]
}

/// Valuation and payout. The inverse of the price-earnings-growth ratio is
/// monotone in both growth and earnings yield, which the ratio is not.
pub open spec fn valuation(m: MarketView) -> Seq<(Seq<char>, Term)> {
    let cap = market_cap(m);
    let percent = unary(
        Unary::Scale(Double { bits: HUNDRED }),
        growth_of(m.daily, net_profit(m)),
    );
    seq![
        ("BP_LR"@, over(parent_equity_of(m), cap)),
        ("DP"@, over(dividends(m), m.close)),
        (
            "DPR_TTM"@,
            over(
                binary(Binary::Mul, dividends(m), m.field("shares.total"@)),
                net_profit(m),
            ),
        ),
        ("EP_TTM"@, over(net_profit(m), cap)),
        ("FCFP_TTM"@, over(free_cash(m), cap)),
        ("NCFP_TTM"@, over(cash_flow(m, "cash_flow_statement.change"@), cap)),
        ("OCFP_TTM"@, over(operating_cash(m), cap)),
        ("PEG_INV_TTM"@, binary(Binary::Mul, percent, over(net_profit(m), cap))),
        ("SP_TTM"@, over(total_income(m), cap)),
    ]
}

pub open spec fn size(m: MarketView) -> Seq<(Seq<char>, Term)> {
    seq![
        ("FC_MC"@, over(float_cap(m), market_cap(m))),
        ("Ln_FC"@, unary(Unary::Ln, float_cap(m))),
        ("Ln_MC"@, unary(Unary::Ln, market_cap(m))),
    ]
}

/// The factors before they are ranked, category by category.
pub open spec fn raw_fund_catalog(m: MarketView) -> Seq<(Seq<char>, Term)> {
    profitability(m) + growths(m) + efficiency(m) + quality(m) + safety(m) + valuation(m) + size(m)
}

/// Named features with their values ranked.
pub open spec fn ranked(list: Seq<(Seq<char>, Term)>) -> Seq<(Seq<char>, Term)> {
    list.map_values(|e: (Seq<char>, Term)| (e.0, unary(Unary::Percentile, e.1)))
}

/// The catalog: every factor as its cross-sectional percentile.
pub open spec fn fund_catalog(m: MarketView) -> Seq<(Seq<char>, Term)> {
    ranked(raw_fund_catalog(m))
}

/// Whether the fields of the catalog are there.
spec fn has_fund_fields(m: MarketView) -> bool {
    &&& m.has_field("shares.total"@)
    &&& m.has_field("shares.circulating"@)
    &&& has_equity(m)
    &&& m.has_field("balance_sheet.assets"@)
    &&& m.has_field("balance_sheet.liab"@)
    &&& m.has_field("balance_sheet.assets.current"@)
    &&& m.has_field("balance_sheet.liab.current"@)
    &&& m.has_field("balance_sheet.assets.current.cash"@)
    &&& m.has_field("balance_sheet.assets.current.inventories"@)
    &&& m.has_field("balance_sheet.assets.current.receivables.notes_and_accounts"@)
    &&& m.has_field("balance_sheet.liab.current.payables.taxes"@)
    &&& has_flow(m, "income_statement.profit"@)
    &&& has_flow(m, "income_statement.profit.operating"@)
    &&& has_flow(m, "income_statement.profit.operating.income"@)
    &&& has_flow(m, "income_statement.profit.operating.income.revenue"@)
    &&& has_flow(m, "income_statement.profit.operating.expenses.costs"@)
    &&& has_flow(m, "cash_flow_statement.change.operating"@)
    &&& has_flow(m, "cash_flow_statement.change"@)
    &&& has_flow(m, "cash_flow_statement.change.investing.out.assets"@)
    &&& has_flow(m, "cash_flow_statement.change.operating.out.taxes"@)
    &&& m.has_field("dividends.cash"@)
    &&& m.has_field("balance_sheet.assets.current.noncurrent_due"@)
    &&& m.has_field("balance_sheet.assets.current.prepayments"@)
}

proof fn fund_fields_are_there(m: MarketView)
    requires
        m.has_all(FUND_FIELDS@),
    ensures
        has_fund_fields(m),
{
    assert(m.has_field(FUND_FIELDS@[0]@));
    assert(m.has_field(FUND_FIELDS@[1]@));
    assert(m.has_field(FUND_FIELDS@[2]@));
    assert(m.has_field(FUND_FIELDS@[3]@));
    assert(m.has_field(FUND_FIELDS@[4]@));
    assert(m.has_field(FUND_FIELDS@[5]@));
    assert(m.has_field(FUND_FIELDS@[6]@));
    assert(m.has_field(FUND_FIELDS@[7]@));
    assert(m.has_field(FUND_FIELDS@[8]@));
    assert(m.has_field(FUND_FIELDS@[9]@));
    assert(m.has_field(FUND_FIELDS@[10]@));
    assert(m.has_field(FUND_FIELDS@[11]@));
    assert(m.has_field(FUND_FIELDS@[12]@));
    assert(m.has_field(FUND_FIELDS@[13]@));
    assert(m.has_field(FUND_FIELDS@[14]@));
    assert(m.has_field(FUND_FIELDS@[15]@));
    assert(m.has_field(FUND_FIELDS@[16]@));
    assert(m.has_field(FUND_FIELDS@[17]@));
    assert(m.has_field(FUND_FIELDS@[18]@));
    assert(m.has_field(FUND_FIELDS@[19]@));
    assert(m.has_field(FUND_FIELDS@[20]@));
    assert(m.has_field(FUND_FIELDS@[21]@));
    assert(m.has_field(FUND_FIELDS@[22]@));
    assert(m.has_field(FUND_FIELDS@[23]@));
    assert(m.has_field(FUND_FIELDS@[24]@));
    assert(m.has_field(FUND_FIELDS@[25]@));
    assert(m.has_field(FUND_FIELDS@[26]@));
    assert(m.has_field(FUND_FIELDS@[27]@));
    assert(m.has_field(FUND_FIELDS@[28]@));
    report_names();
    income_segments();
    cash_flow_segments();
}

/// The building blocks that several factors share.
struct Blocks {
    mc: Wire<Vector>,
    fc: Wire<Vector>,
    equity: Wire<Vector>,
    assets: Wire<Vector>,
    debt: Wire<Vector>,
    cur_liab: Wire<Vector>,
    np_ttm: Wire<Vector>,
    op_ttm: Wire<Vector>,
    income_ttm: Wire<Vector>,
    rev_ttm: Wire<Vector>,
    cost_ttm: Wire<Vector>,
    ocf_ttm: Wire<Vector>,
    gross_ttm: Wire<Vector>,
    roe: Wire<Vector>,
}

impl Blocks {
    /// Whether the wires belong to the graph and carry what they are named
    /// for.
    spec fn right(self, b: Builder, m: MarketView) -> bool {
        &&& b.has(self.mc)
        &&& self.mc@ == market_cap(m)
        &&& b.has(self.fc)
        &&& self.fc@ == float_cap(m)
        &&& b.has(self.equity)
        &&& self.equity@ == parent_equity_of(m)
        &&& b.has(self.assets)
        &&& self.assets@ == assets(m)
        &&& b.has(self.debt)
        &&& self.debt@ == debt(m)
        &&& b.has(self.cur_liab)
        &&& self.cur_liab@ == current_liabilities(m)
        &&& b.has(self.np_ttm)
        &&& self.np_ttm@ == net_profit(m)
        &&& b.has(self.op_ttm)
        &&& self.op_ttm@ == operating_profit(m)
        &&& b.has(self.income_ttm)
        &&& self.income_ttm@ == total_income(m)
        &&& b.has(self.rev_ttm)
        &&& self.rev_ttm@ == revenue(m)
        &&& b.has(self.cost_ttm)
        &&& self.cost_ttm@ == costs(m)
        &&& b.has(self.ocf_ttm)
        &&& self.ocf_ttm@ == operating_cash(m)
        &&& b.has(self.gross_ttm)
        &&& self.gross_ttm@ == gross(m)
        &&& b.has(self.roe)
        &&& self.roe@ == return_on_equity(m)
    }
}

/// The trailing-year flow of an income statement item.
fn income_flow(b: &mut Builder, m: &MarketData, name: &str) -> (r: Wire<Vector>)
    requires
        old(b).ordered(),
        m.belongs(*old(b)),
        has_flow(m@, name@),
    ensures
        final(b).grown(*old(b)),
        final(b).has(r),
        r@ == income(m@, name@),
{
    let flow = annualized(b, m, m.income_report_signals, name);
    ttm(b, m.daily, flow)
}

/// The trailing-year flow of a cash flow statement item.
fn cash_flow_item(b: &mut Builder, m: &MarketData, name: &str) -> (r: Wire<Vector>)
    requires
        old(b).ordered(),
        m.belongs(*old(b)),
        has_flow(m@, name@),
    ensures
        final(b).grown(*old(b)),
        final(b).has(r),
        r@ == cash_flow(m@, name@),
{
    let flow = annualized(b, m, m.cf_report_signals, name);
    ttm(b, m.daily, flow)
}

/// The mean of the present and the year-ago balance.
fn average_balance(b: &mut Builder, m: &MarketData, h: Wire<Vector>) -> (r: Wire<Vector>)
    requires
        old(b).ordered(),
        m.belongs(*old(b)),
        old(b).has(h),
    ensures
        final(b).grown(*old(b)),
        final(b).has(r),
        r@ == average(m@, h@),
{
    let lag = b.rolling(Rolling::Lag, Window::Span(Duration { nanos: YEAR }), m.daily, h);
    let two = b.binary(Binary::Add, h, lag);
    b.unary(Unary::Scale(Double { bits: HALF }), two)
}

/// Adds a factor and its change over a year.
fn level_and_change(
    b: &mut Builder,
    m: &MarketData,
    entries: &mut Vec<(String, Wire<Vector>)>,
    name: &str,
    delta: &str,
    h: Wire<Vector>,
)
    requires
        old(b).ordered(),
        m.belongs(*old(b)),
        old(b).has(h),
        all_in(*old(b), old(entries)@),
    ensures
        final(b).grown(*old(b)),
        all_in(*final(b), final(entries)@),
        named(final(entries)@) == named(old(entries)@).push((name@, h@)).push(
            (delta@, change_of(m@.daily, h@)),
        ),
{
    enlist(b, entries, name, h);
    let d = change(b, m.daily, h);
    enlist(b, entries, delta, d);
}

fn blocks(b: &mut Builder, m: &MarketData) -> (r: Blocks)
    requires
        old(b).ordered(),
        m.belongs(*old(b)),
        has_fund_fields(m@),
    ensures
        final(b).grown(*old(b)),
        r.right(*final(b), m@),
{
    let total = m.field("shares.total");
    let circulating = m.field("shares.circulating");
    let assets = m.field("balance_sheet.assets");
    let liab = m.field("balance_sheet.liab");
    let liab_current = m.field("balance_sheet.liab.current");
    let mc = b.binary(Binary::Mul, m.close, total);
    let fc = b.binary(Binary::Mul, m.close, circulating);
    let equity = parent_equity(b, m);
    let debt = b.unary(Unary::Neg, liab);
    let cur_liab = b.unary(Unary::Neg, liab_current);
    let np_ttm = income_flow(b, m, "income_statement.profit");
    let op_ttm = income_flow(b, m, "income_statement.profit.operating");
    let income_ttm = income_flow(b, m, "income_statement.profit.operating.income");
    let rev_ttm = income_flow(b, m, "income_statement.profit.operating.income.revenue");
    let cost_ttm = income_flow(b, m, "income_statement.profit.operating.expenses.costs");
    let ocf_ttm = cash_flow_item(b, m, "cash_flow_statement.change.operating");
    let gross_ttm = b.binary(Binary::Add, rev_ttm, cost_ttm);
    let roe = b.binary(Binary::Div, np_ttm, equity);
    Blocks {
        mc,
        fc,
        equity,
        assets,
        debt,
        cur_liab,
        np_ttm,
        op_ttm,
        income_ttm,
        rev_ttm,
        cost_ttm,
        ocf_ttm,
        gross_ttm,
        roe,
    }
}

fn add_profitability(
    b: &mut Builder,
    m: &MarketData,
    k: &Blocks,
    entries: &mut Vec<(String, Wire<Vector>)>,
)
    requires
        old(b).ordered(),
        m.belongs(*old(b)),
        has_fund_fields(m@),
        k.right(*old(b), m@),
        all_in(*old(b), old(entries)@),
    ensures
        final(b).grown(*old(b)),
        all_in(*final(b), final(entries)@),
        named(final(entries)@) == named(old(entries)@) + profitability(m@),
{
    let invested = b.binary(Binary::Sub, k.assets, k.cur_liab);
    let roa = b.binary(Binary::Div, k.np_ttm, k.assets);
    let cfoa = b.binary(Binary::Div, k.ocf_ttm, k.assets);
    let roic = b.binary(Binary::Div, k.op_ttm, invested);
    level_and_change(b, m, entries, "ROE_TTM", "ROED", k.roe);
    level_and_change(b, m, entries, "ROA_TTM", "ROAD", roa);
    level_and_change(b, m, entries, "CFOA", "CFOAD", cfoa);
    level_and_change(b, m, entries, "ROIC_TTM", "ROICD", roic);
    let payable = m.field("balance_sheet.liab.current.payables.taxes");
    let taxes = b.unary(Unary::Neg, payable);
    let taxes_delta = change(b, m.daily, taxes);
    let tax_paid = cash_flow_item(b, m, "cash_flow_statement.change.operating.out.taxes");
    let tax_paid_pos = b.unary(Unary::Neg, tax_paid);
    let toe_num = b.binary(Binary::Add, taxes_delta, tax_paid_pos);
    let toe = b.binary(Binary::Div, toe_num, k.equity);
    enlist(b, entries, "TOE", toe);
    assert(named(entries@) =~= named(old(entries)@) + profitability(m@));
}

fn add_growth(
    b: &mut Builder,
    m: &MarketData,
    k: &Blocks,
    entries: &mut Vec<(String, Wire<Vector>)>,
)
    requires
        old(b).ordered(),
        m.belongs(*old(b)),
        has_fund_fields(m@),
        k.right(*old(b), m@),
        all_in(*old(b), old(entries)@),
    ensures
        final(b).grown(*old(b)),
        all_in(*final(b), final(entries)@),
        named(final(entries)@) == named(old(entries)@) + growths(m@),
{
    let total = m.field("shares.total");
    let eps = b.binary(Binary::Div, k.np_ttm, total);
    let eps_yoy = growth(b, m.daily, eps);
    enlist(b, entries, "EPS_YOY", eps_yoy);
    let np_yoy = growth(b, m.daily, k.np_ttm);
    enlist(b, entries, "NP_YOY", np_yoy);
    let ocf_yoy = growth(b, m.daily, k.ocf_ttm);
    enlist(b, entries, "OCF_YOY", ocf_yoy);
    let op_yoy = growth(b, m.daily, k.op_ttm);
    enlist(b, entries, "OP_YOY", op_yoy);
    let or_yoy = growth(b, m.daily, k.income_ttm);
    enlist(b, entries, "OR_YOY", or_yoy);
    let roe_yoy = growth(b, m.daily, k.roe);
    enlist(b, entries, "ROE_YOY", roe_yoy);
    let ta_yoy = growth(b, m.daily, k.assets);
    enlist(b, entries, "TA_YOY", ta_yoy);
    assert(named(entries@) =~= named(old(entries)@) + growths(m@));
}

fn add_efficiency(
    b: &mut Builder,
    m: &MarketData,
    k: &Blocks,
    entries: &mut Vec<(String, Wire<Vector>)>,
)
    requires
        old(b).ordered(),
        m.belongs(*old(b)),
        has_fund_fields(m@),
        k.right(*old(b), m@),
        all_in(*old(b), old(entries)@),
    ensures
        final(b).grown(*old(b)),
        all_in(*final(b), final(entries)@),
        named(final(entries)@) == named(old(entries)@) + efficiency(m@),
{
    let inventories = m.field("balance_sheet.assets.current.inventories");
    let receivables = m.field("balance_sheet.assets.current.receivables.notes_and_accounts");
    let avg_assets = average_balance(b, m, k.assets);
    let avg_inventories = average_balance(b, m, inventories);
    let avg_receivables = average_balance(b, m, receivables);
    let cogs_ttm = b.unary(Unary::Neg, k.cost_ttm);
    let at = b.binary(Binary::Div, k.income_ttm, avg_assets);
    let gpm = b.binary(Binary::Div, k.gross_ttm, k.rev_ttm);
    let invt = b.binary(Binary::Div, cogs_ttm, avg_inventories);
    let opm = b.binary(Binary::Div, k.op_ttm, k.income_ttm);
    let rat = b.binary(Binary::Div, k.income_ttm, avg_receivables);
    level_and_change(b, m, entries, "AT", "ATD", at);
    let gpmd = change(b, m.daily, gpm);
    enlist(b, entries, "GPMD", gpmd);
    level_and_change(b, m, entries, "INVT", "INVTD", invt);
    let npm = b.binary(Binary::Div, k.np_ttm, k.income_ttm);
    enlist(b, entries, "NPM_TTM", npm);
    level_and_change(b, m, entries, "OPM_TTM", "OPMD", opm);
    let optogr = b.binary(Binary::Div, k.op_ttm, k.gross_ttm);
    enlist(b, entries, "OPtoGR_TTM", optogr);
    level_and_change(b, m, entries, "RAT", "RATD", rat);
    assert(named(entries@) =~= named(old(entries)@) + efficiency(m@));
}

fn add_quality(
    b: &mut Builder,
    m: &MarketData,
    k: &Blocks,
    entries: &mut Vec<(String, Wire<Vector>)>,
)
    requires
        old(b).ordered(),
        m.belongs(*old(b)),
        has_fund_fields(m@),
        k.right(*old(b), m@),
        all_in(*old(b), old(entries)@),
    ensures
        final(b).grown(*old(b)),
        all_in(*final(b), final(entries)@),
        named(final(entries)@) == named(old(entries)@) + quality(m@),
{
    let cash = m.field("balance_sheet.assets.current.cash");
    let accruals = b.binary(Binary::Sub, k.np_ttm, k.ocf_ttm);
    let apr = b.binary(Binary::Div, accruals, k.op_ttm);
    let csr = b.binary(Binary::Div, cash, k.cur_liab);
    level_and_change(b, m, entries, "APR_TTM", "APRD", apr);
    level_and_change(b, m, entries, "CSR", "CSRD", csr);
    assert(named(entries@) =~= named(old(entries)@) + quality(m@));
}

fn add_safety(
    b: &mut Builder,
    m: &MarketData,
    k: &Blocks,
    entries: &mut Vec<(String, Wire<Vector>)>,
)
    requires
        old(b).ordered(),
        m.belongs(*old(b)),
        has_fund_fields(m@),
        k.right(*old(b), m@),
        all_in(*old(b), old(entries)@),
    ensures
        final(b).grown(*old(b)),
        all_in(*final(b), final(entries)@),
        named(final(entries)@) == named(old(entries)@) + safety(m@),
{
    let current = m.field("balance_sheet.assets.current");
    let inventories = m.field("balance_sheet.assets.current.inventories");
    let due = m.field("balance_sheet.assets.current.noncurrent_due");
    let prepayments = m.field("balance_sheet.assets.current.prepayments");
    let ccr = b.binary(Binary::Div, k.ocf_ttm, k.cur_liab);
    let cur = b.binary(Binary::Div, current, k.cur_liab);
    let debt_asset = b.binary(Binary::Div, k.debt, k.assets);
    let dte = b.binary(Binary::Div, k.debt, k.equity);
    let q1 = b.binary(Binary::Sub, current, inventories);
    let q2 = b.binary(Binary::Sub, q1, due);
    let quick_assets = b.binary(Binary::Sub, q2, prepayments);
    let qr = b.binary(Binary::Div, quick_assets, k.cur_liab);
    level_and_change(b, m, entries, "CCR", "CCRD", ccr);
    level_and_change(b, m, entries, "CUR", "CURD", cur);
    level_and_change(b, m, entries, "Debt_Asset", "DAD", debt_asset);
    level_and_change(b, m, entries, "DTE", "DTED", dte);
    level_and_change(b, m, entries, "QR", "QRD", qr);
    assert(named(entries@) =~= named(old(entries)@) + safety(m@));
}

fn add_valuation(
    b: &mut Builder,
    m: &MarketData,
    k: &Blocks,
    entries: &mut Vec<(String, Wire<Vector>)>,
)
    requires
        old(b).ordered(),
        m.belongs(*old(b)),
        has_fund_fields(m@),
        k.right(*old(b), m@),
        all_in(*old(b), old(entries)@),
    ensures
        final(b).grown(*old(b)),
        all_in(*final(b), final(entries)@),
        named(final(entries)@) == named(old(entries)@) + valuation(m@),
{
    let cash_dividend = m.field("dividends.cash");
    let total = m.field("shares.total");
    let events = b.collect(m.div_signals, cash_dividend, m.daily);
    let dps = b.rolling(
        Rolling::Sum(0),
        Window::Span(Duration { nanos: YEAR }),
        m.daily,
        events,
    );
    let capex = cash_flow_item(b, m, "cash_flow_statement.change.investing.out.assets");
    let ncf = cash_flow_item(b, m, "cash_flow_statement.change");
    let fcf = b.binary(Binary::Add, k.ocf_ttm, capex);
    let bp = b.binary(Binary::Div, k.equity, k.mc);
    enlist(b, entries, "BP_LR", bp);
    let dp = b.binary(Binary::Div, dps, m.close);
    enlist(b, entries, "DP", dp);
    let div_total = b.binary(Binary::Mul, dps, total);
    let dpr = b.binary(Binary::Div, div_total, k.np_ttm);
    enlist(b, entries, "DPR_TTM", dpr);
    let ep = b.binary(Binary::Div, k.np_ttm, k.mc);
    enlist(b, entries, "EP_TTM", ep);
    let fcfp = b.binary(Binary::Div, fcf, k.mc);
    enlist(b, entries, "FCFP_TTM", fcfp);
    let ncfp = b.binary(Binary::Div, ncf, k.mc);
    enlist(b, entries, "NCFP_TTM", ncfp);
    let ocfp = b.binary(Binary::Div, k.ocf_ttm, k.mc);
    enlist(b, entries, "OCFP_TTM", ocfp);
    let np_yoy = growth(b, m.daily, k.np_ttm);
    let np_yoy_pct = b.unary(Unary::Scale(Double { bits: HUNDRED }), np_yoy);
    let yield_ = b.binary(Binary::Div, k.np_ttm, k.mc);
    let peg = b.binary(Binary::Mul, np_yoy_pct, yield_);
    enlist(b, entries, "PEG_INV_TTM", peg);
    let sp = b.binary(Binary::Div, k.income_ttm, k.mc);
    enlist(b, entries, "SP_TTM", sp);
    assert(named(entries@) =~= named(old(entries)@) + valuation(m@));
}

fn add_size(
    b: &mut Builder,
    m: &MarketData,
    k: &Blocks,
    entries: &mut Vec<(String, Wire<Vector>)>,
)
    requires
        old(b).ordered(),
        m.belongs(*old(b)),
        k.right(*old(b), m@),
        all_in(*old(b), old(entries)@),
    ensures
        final(b).grown(*old(b)),
        all_in(*final(b), final(entries)@),
        named(final(entries)@) == named(old(entries)@) + size(m@),
{
    let fc_mc = b.binary(Binary::Div, k.fc, k.mc);
    enlist(b, entries, "FC_MC", fc_mc);
    let ln_fc = b.unary(Unary::Ln, k.fc);
    enlist(b, entries, "Ln_FC", ln_fc);
    let ln_mc = b.unary(Unary::Ln, k.mc);
    enlist(b, entries, "Ln_MC", ln_mc);
    assert(named(entries@) =~= named(old(entries)@) + size(m@));
}

/// Ranks every entry of a list.
fn rank_all(b: &mut Builder, entries: &Vec<(String, Wire<Vector>)>) -> (r: Vec<
    (String, Wire<Vector>),
>)
    requires
        old(b).ordered(),
        all_in(*old(b), entries@),
    ensures
        final(b).grown(*old(b)),
        all_in(*final(b), r@),
        named(r@) == ranked(named(entries@)),
        rising(r@, 0, old(b).nodes().len() as int),
{
    let mut out: Vec<(String, Wire<Vector>)> = Vec::new();
    for i in 0..entries.len()
        invariant
            b.grown(*old(b)),
            all_in(*b, entries@),
            all_in(*b, out@),
            out@.len() == i,
            forall|k: int|
                0 <= k < i ==> (#[trigger] out@[k]).0@ == entries@[k].0@ && out@[k].1@ == unary(
                    Unary::Percentile,
                    entries@[k].1@,
                ),
            rising(out@, 0, old(b).nodes().len() as int),
            under(out@, b.nodes().len() as int),
    {
        let h = b.unary(Unary::Percentile, entries[i].1);
        out.push((entries[i].0.clone(), h));
    }
    assert(named(out@) =~= ranked(named(entries@)));
    out
}

/// Builds the CICC fundamental catalog, one `(name, ranked value)` entry per
/// factor, category by category.
pub fn build_features_cicc_fund(b: &mut Builder, m: &MarketData) -> (r: Vec<
    (String, Wire<Vector>),
>)
    requires
        old(b).ordered(),
        m.belongs(*old(b)),
        m@.has_all(FUND_FIELDS@),
    ensures
        final(b).grown(*old(b)),
        all_in(*final(b), r@),
        named(r@) == fund_catalog(m@),
        rising(r@, 0, old(b).nodes().len() as int),
{
    proof {
        fund_fields_are_there(m@);
    }
    let mut entries: Vec<(String, Wire<Vector>)> = Vec::new();
    let k = blocks(b, m);
    add_profitability(b, m, &k, &mut entries);
    add_growth(b, m, &k, &mut entries);
    add_efficiency(b, m, &k, &mut entries);
    add_quality(b, m, &k, &mut entries);
    add_safety(b, m, &k, &mut entries);
    add_valuation(b, m, &k, &mut entries);
    add_size(b, m, &k, &mut entries);
    assert(named(entries@) =~= raw_fund_catalog(m@));
    rank_all(b, &entries)
}

proof fn the_categories_stand_in_order(m: MarketView)
    ensures
        raw_fund_catalog(m).len() == 53,
        raw_fund_catalog(m)[0] == profitability(m)[0],
        raw_fund_catalog(m)[1] == profitability(m)[1],
        raw_fund_catalog(m)[2] == profitability(m)[2],
        raw_fund_catalog(m)[3] == profitability(m)[3],
        raw_fund_catalog(m)[4] == profitability(m)[4],
        raw_fund_catalog(m)[5] == profitability(m)[5],
        raw_fund_catalog(m)[6] == profitability(m)[6],
        raw_fund_catalog(m)[7] == profitability(m)[7],
        raw_fund_catalog(m)[8] == profitability(m)[8],
        raw_fund_catalog(m)[9] == growths(m)[0],
        raw_fund_catalog(m)[10] == growths(m)[1],
        raw_fund_catalog(m)[11] == growths(m)[2],
        raw_fund_catalog(m)[12] == growths(m)[3],
        raw_fund_catalog(m)[13] == growths(m)[4],
        raw_fund_catalog(m)[14] == growths(m)[5],
        raw_fund_catalog(m)[15] == growths(m)[6],
        raw_fund_catalog(m)[16] == efficiency(m)[0],
        raw_fund_catalog(m)[17] == efficiency(m)[1],
        raw_fund_catalog(m)[18] == efficiency(m)[2],
        raw_fund_catalog(m)[19] == efficiency(m)[3],
        raw_fund_catalog(m)[20] == efficiency(m)[4],
        raw_fund_catalog(m)[21] == efficiency(m)[5],
        raw_fund_catalog(m)[22] == efficiency(m)[6],
        raw_fund_catalog(m)[23] == efficiency(m)[7],
        raw_fund_catalog(m)[24] == efficiency(m)[8],
        raw_fund_catalog(m)[25] == efficiency(m)[9],
        raw_fund_catalog(m)[26] == efficiency(m)[10],
        raw_fund_catalog(m)[27] == quality(m)[0],
        raw_fund_catalog(m)[28] == quality(m)[1],
        raw_fund_catalog(m)[29] == quality(m)[2],
        raw_fund_catalog(m)[30] == quality(m)[3],
        raw_fund_catalog(m)[31] == safety(m)[0],
        raw_fund_catalog(m)[32] == safety(m)[1],
        raw_fund_catalog(m)[33] == safety(m)[2],
        raw_fund_catalog(m)[34] == safety(m)[3],
        raw_fund_catalog(m)[35] == safety(m)[4],
        raw_fund_catalog(m)[36] == safety(m)[5],
        raw_fund_catalog(m)[37] == safety(m)[6],
        raw_fund_catalog(m)[38] == safety(m)[7],
        raw_fund_catalog(m)[39] == safety(m)[8],
        raw_fund_catalog(m)[40] == safety(m)[9],
        raw_fund_catalog(m)[41] == valuation(m)[0],
        raw_fund_catalog(m)[42] == valuation(m)[1],
        raw_fund_catalog(m)[43] == valuation(m)[2],
        raw_fund_catalog(m)[44] == valuation(m)[3],
        raw_fund_catalog(m)[45] == valuation(m)[4],
        raw_fund_catalog(m)[46] == valuation(m)[5],
        raw_fund_catalog(m)[47] == valuation(m)[6],
        raw_fund_catalog(m)[48] == valuation(m)[7],
        raw_fund_catalog(m)[49] == valuation(m)[8],
        raw_fund_catalog(m)[50] == size(m)[0],
        raw_fund_catalog(m)[51] == size(m)[1],
        raw_fund_catalog(m)[52] == size(m)[2],
{
}

/// Profitability is the year's profit, cash flow or operating profit as a
/// fraction of what earned it.
#[verifier::rlimit(60)]
pub proof fn profitability_is_told(run: Run, m: MarketView, lane: int, now: int)
    requires
        known(run, m.field("balance_sheet.equity.capital"@), lane, now),
        known(run, m.field("balance_sheet.equity.reserves"@), lane, now),
        known(run, m.field("balance_sheet.equity.parent_interests"@), lane, now),
        known(run, m.field("balance_sheet.assets"@), lane, now),
        known(run, m.field("balance_sheet.liab.current"@), lane, now),
        known(run, ttm_of(m.daily, annualized_of(m, m.income_report_signals, "income_statement.profit"@)), lane, now),
        known(run, ttm_of(m.daily, annualized_of(m, m.income_report_signals, "income_statement.profit.operating"@)), lane, now),
        known(run, ttm_of(m.daily, annualized_of(m, m.cf_report_signals, "cash_flow_statement.change.operating"@)), lane, now),
    ensures
        ({
            let capital = num(run, m.field("balance_sheet.equity.capital"@), lane, now);
            let reserves = num(run, m.field("balance_sheet.equity.reserves"@), lane, now);
            let interests = num(run, m.field("balance_sheet.equity.parent_interests"@), lane, now);
            let assets = num(run, m.field("balance_sheet.assets"@), lane, now);
            let current_liab = num(run, m.field("balance_sheet.liab.current"@), lane, now);
            let profit = num(run, ttm_of(m.daily, annualized_of(m, m.income_report_signals, "income_statement.profit"@)), lane, now);
            let operating = num(run, ttm_of(m.daily, annualized_of(m, m.income_report_signals, "income_statement.profit.operating"@)), lane, now);
            let flow = num(run, ttm_of(m.daily, annualized_of(m, m.cf_report_signals, "cash_flow_statement.change.operating"@)), lane, now);
            let list = raw_fund_catalog(m);
            let at = |i: int| value(run, list[i].1, lane, now);
            &&& list[0].0 == "ROE_TTM"@
            &&& (-capital - reserves - interests) != 0real ==> at(0) is Some && at(0)->0 * (-capital - reserves - interests) == profit
            &&& list[2].0 == "ROA_TTM"@
            &&& assets != 0real ==> at(2) is Some && at(2)->0 * assets == profit
            &&& list[4].0 == "CFOA"@
            &&& assets != 0real ==> at(4) is Some && at(4)->0 * assets == flow
            &&& list[6].0 == "ROIC_TTM"@
            &&& (assets + current_liab) != 0real ==> at(6) is Some && at(6)->0 * (assets + current_liab) == operating
        }),
{
    broadcast use group_values;

    the_categories_stand_in_order(m);
    let capital = num(run, m.field("balance_sheet.equity.capital"@), lane, now);
    let reserves = num(run, m.field("balance_sheet.equity.reserves"@), lane, now);
    let interests = num(run, m.field("balance_sheet.equity.parent_interests"@), lane, now);
    let assets = num(run, m.field("balance_sheet.assets"@), lane, now);
    let current_liab = num(run, m.field("balance_sheet.liab.current"@), lane, now);
    let profit = num(run, ttm_of(m.daily, annualized_of(m, m.income_report_signals, "income_statement.profit"@)), lane, now);
    let operating = num(run, ttm_of(m.daily, annualized_of(m, m.income_report_signals, "income_statement.profit.operating"@)), lane, now);
    let flow = num(run, ttm_of(m.daily, annualized_of(m, m.cf_report_signals, "cash_flow_statement.change.operating"@)), lane, now);
    let list = raw_fund_catalog(m);
    if (-capital - reserves - interests) != 0real {
        a_quotient_times_its_divisor(profit, (-capital - reserves - interests));
    }
    if assets != 0real {
        a_quotient_times_its_divisor(profit, assets);
    }
    if assets != 0real {
        a_quotient_times_its_divisor(flow, assets);
    }
    if (assets + current_liab) != 0real {
        a_quotient_times_its_divisor(operating, (assets + current_liab));
    }
}

/// Margins are profits as fractions of the income they come from; costs are
/// stored negative.
#[verifier::rlimit(60)]
pub proof fn margins_are_told(run: Run, m: MarketView, lane: int, now: int)
    requires
        known(run, ttm_of(m.daily, annualized_of(m, m.income_report_signals, "income_statement.profit"@)), lane, now),
        known(run, ttm_of(m.daily, annualized_of(m, m.income_report_signals, "income_statement.profit.operating"@)), lane, now),
        known(run, ttm_of(m.daily, annualized_of(m, m.income_report_signals, "income_statement.profit.operating.income"@)), lane, now),
        known(run, ttm_of(m.daily, annualized_of(m, m.income_report_signals, "income_statement.profit.operating.income.revenue"@)), lane, now),
        known(run, ttm_of(m.daily, annualized_of(m, m.income_report_signals, "income_statement.profit.operating.expenses.costs"@)), lane, now),
    ensures
        ({
            let profit = num(run, ttm_of(m.daily, annualized_of(m, m.income_report_signals, "income_statement.profit"@)), lane, now);
            let operating = num(run, ttm_of(m.daily, annualized_of(m, m.income_report_signals, "income_statement.profit.operating"@)), lane, now);
            let income = num(run, ttm_of(m.daily, annualized_of(m, m.income_report_signals, "income_statement.profit.operating.income"@)), lane, now);
            let revenue = num(run, ttm_of(m.daily, annualized_of(m, m.income_report_signals, "income_statement.profit.operating.income.revenue"@)), lane, now);
            let cost = num(run, ttm_of(m.daily, annualized_of(m, m.income_report_signals, "income_statement.profit.operating.expenses.costs"@)), lane, now);
            let list = raw_fund_catalog(m);
            let at = |i: int| value(run, list[i].1, lane, now);
            &&& list[21].0 == "NPM_TTM"@
            &&& income != 0real ==> at(21) is Some && at(21)->0 * income == profit
            &&& list[22].0 == "OPM_TTM"@
            &&& income != 0real ==> at(22) is Some && at(22)->0 * income == operating
            &&& list[24].0 == "OPtoGR_TTM"@
            &&& (revenue + cost) != 0real ==> at(24) is Some && at(24)->0 * (revenue + cost) == operating
        }),
{
    broadcast use group_values;

    the_categories_stand_in_order(m);
    let profit = num(run, ttm_of(m.daily, annualized_of(m, m.income_report_signals, "income_statement.profit"@)), lane, now);
    let operating = num(run, ttm_of(m.daily, annualized_of(m, m.income_report_signals, "income_statement.profit.operating"@)), lane, now);
    let income = num(run, ttm_of(m.daily, annualized_of(m, m.income_report_signals, "income_statement.profit.operating.income"@)), lane, now);
    let revenue = num(run, ttm_of(m.daily, annualized_of(m, m.income_report_signals, "income_statement.profit.operating.income.revenue"@)), lane, now);
    let cost = num(run, ttm_of(m.daily, annualized_of(m, m.income_report_signals, "income_statement.profit.operating.expenses.costs"@)), lane, now);
    let list = raw_fund_catalog(m);
    if income != 0real {
        a_quotient_times_its_divisor(profit, income);
    }
    if income != 0real {
        a_quotient_times_its_divisor(operating, income);
    }
    if (revenue + cost) != 0real {
        a_quotient_times_its_divisor(operating, (revenue + cost));
    }
}

/// The accrual part of profit and the cash cover of what is due within the
/// year, which is stored negative.
#[verifier::rlimit(60)]
pub proof fn quality_is_told(run: Run, m: MarketView, lane: int, now: int)
    requires
        known(run, ttm_of(m.daily, annualized_of(m, m.income_report_signals, "income_statement.profit"@)), lane, now),
        known(run, ttm_of(m.daily, annualized_of(m, m.cf_report_signals, "cash_flow_statement.change.operating"@)), lane, now),
        known(run, ttm_of(m.daily, annualized_of(m, m.income_report_signals, "income_statement.profit.operating"@)), lane, now),
        known(run, m.field("balance_sheet.assets.current.cash"@), lane, now),
        known(run, m.field("balance_sheet.liab.current"@), lane, now),
    ensures
        ({
            let profit = num(run, ttm_of(m.daily, annualized_of(m, m.income_report_signals, "income_statement.profit"@)), lane, now);
            let flow = num(run, ttm_of(m.daily, annualized_of(m, m.cf_report_signals, "cash_flow_statement.change.operating"@)), lane, now);
            let operating = num(run, ttm_of(m.daily, annualized_of(m, m.income_report_signals, "income_statement.profit.operating"@)), lane, now);
            let cash = num(run, m.field("balance_sheet.assets.current.cash"@), lane, now);
            let current_liab = num(run, m.field("balance_sheet.liab.current"@), lane, now);
            let list = raw_fund_catalog(m);
            let at = |i: int| value(run, list[i].1, lane, now);
            &&& list[27].0 == "APR_TTM"@
            &&& operating != 0real ==> at(27) is Some && at(27)->0 * operating == (profit - flow)
            &&& list[29].0 == "CSR"@
            &&& (-current_liab) != 0real ==> at(29) is Some && at(29)->0 * (-current_liab) == cash
        }),
{
    broadcast use group_values;

    the_categories_stand_in_order(m);
    let profit = num(run, ttm_of(m.daily, annualized_of(m, m.income_report_signals, "income_statement.profit"@)), lane, now);
    let flow = num(run, ttm_of(m.daily, annualized_of(m, m.cf_report_signals, "cash_flow_statement.change.operating"@)), lane, now);
    let operating = num(run, ttm_of(m.daily, annualized_of(m, m.income_report_signals, "income_statement.profit.operating"@)), lane, now);
    let cash = num(run, m.field("balance_sheet.assets.current.cash"@), lane, now);
    let current_liab = num(run, m.field("balance_sheet.liab.current"@), lane, now);
    let list = raw_fund_catalog(m);
    if operating != 0real {
        a_quotient_times_its_divisor((profit - flow), operating);
    }
    if (-current_liab) != 0real {
        a_quotient_times_its_divisor(cash, (-current_liab));
    }
}

/// How what is owed, which is stored negative, is covered: what is due
/// within the year by cash flow, by current assets and by quick assets, and all
/// debt against assets and equity.
#[verifier::rlimit(60)]
pub proof fn safety_is_told(run: Run, m: MarketView, lane: int, now: int)
    requires
        known(run, m.field("balance_sheet.equity.capital"@), lane, now),
        known(run, m.field("balance_sheet.equity.reserves"@), lane, now),
        known(run, m.field("balance_sheet.equity.parent_interests"@), lane, now),
        known(run, m.field("balance_sheet.assets"@), lane, now),
        known(run, m.field("balance_sheet.liab"@), lane, now),
        known(run, m.field("balance_sheet.assets.current"@), lane, now),
        known(run, m.field("balance_sheet.liab.current"@), lane, now),
        known(run, m.field("balance_sheet.assets.current.inventories"@), lane, now),
        known(run, m.field("balance_sheet.assets.current.noncurrent_due"@), lane, now),
        known(run, m.field("balance_sheet.assets.current.prepayments"@), lane, now),
        known(run, ttm_of(m.daily, annualized_of(m, m.cf_report_signals, "cash_flow_statement.change.operating"@)), lane, now),
    ensures
        ({
            let capital = num(run, m.field("balance_sheet.equity.capital"@), lane, now);
            let reserves = num(run, m.field("balance_sheet.equity.reserves"@), lane, now);
            let interests = num(run, m.field("balance_sheet.equity.parent_interests"@), lane, now);
            let assets = num(run, m.field("balance_sheet.assets"@), lane, now);
            let liab = num(run, m.field("balance_sheet.liab"@), lane, now);
            let current_assets = num(run, m.field("balance_sheet.assets.current"@), lane, now);
            let current_liab = num(run, m.field("balance_sheet.liab.current"@), lane, now);
            let inventories = num(run, m.field("balance_sheet.assets.current.inventories"@), lane, now);
            let due = num(run, m.field("balance_sheet.assets.current.noncurrent_due"@), lane, now);
            let prepaid = num(run, m.field("balance_sheet.assets.current.prepayments"@), lane, now);
            let flow = num(run, ttm_of(m.daily, annualized_of(m, m.cf_report_signals, "cash_flow_statement.change.operating"@)), lane, now);
            let list = raw_fund_catalog(m);
            let at = |i: int| value(run, list[i].1, lane, now);
            &&& list[31].0 == "CCR"@
            &&& (-current_liab) != 0real ==> at(31) is Some && at(31)->0 * (-current_liab) == flow
            &&& list[33].0 == "CUR"@
            &&& (-current_liab) != 0real ==> at(33) is Some && at(33)->0 * (-current_liab) == current_assets
            &&& list[35].0 == "Debt_Asset"@
            &&& assets != 0real ==> at(35) is Some && at(35)->0 * assets == (-liab)
            &&& list[37].0 == "DTE"@
            &&& (-capital - reserves - interests) != 0real ==> at(37) is Some && at(37)->0 * (-capital - reserves - interests) == (-liab)
            &&& list[39].0 == "QR"@
            &&& (-current_liab) != 0real ==> at(39) is Some && at(39)->0 * (-current_liab) == (current_assets - inventories - due - prepaid)
        }),
{
    broadcast use group_values;

    the_categories_stand_in_order(m);
    let capital = num(run, m.field("balance_sheet.equity.capital"@), lane, now);
    let reserves = num(run, m.field("balance_sheet.equity.reserves"@), lane, now);
    let interests = num(run, m.field("balance_sheet.equity.parent_interests"@), lane, now);
    let assets = num(run, m.field("balance_sheet.assets"@), lane, now);
    let liab = num(run, m.field("balance_sheet.liab"@), lane, now);
    let current_assets = num(run, m.field("balance_sheet.assets.current"@), lane, now);
    let current_liab = num(run, m.field("balance_sheet.liab.current"@), lane, now);
    let inventories = num(run, m.field("balance_sheet.assets.current.inventories"@), lane, now);
    let due = num(run, m.field("balance_sheet.assets.current.noncurrent_due"@), lane, now);
    let prepaid = num(run, m.field("balance_sheet.assets.current.prepayments"@), lane, now);
    let flow = num(run, ttm_of(m.daily, annualized_of(m, m.cf_report_signals, "cash_flow_statement.change.operating"@)), lane, now);
    let list = raw_fund_catalog(m);
    if (-current_liab) != 0real {
        a_quotient_times_its_divisor(flow, (-current_liab));
    }
    if (-current_liab) != 0real {
        a_quotient_times_its_divisor(current_assets, (-current_liab));
    }
    if assets != 0real {
        a_quotient_times_its_divisor((-liab), assets);
    }
    if (-capital - reserves - interests) != 0real {
        a_quotient_times_its_divisor((-liab), (-capital - reserves - interests));
    }
    if (-current_liab) != 0real {
        a_quotient_times_its_divisor((current_assets - inventories - due - prepaid), (-current_liab));
    }
}

/// Valuation is what a share of the market cap buys: equity, profit, free,
/// net and operating cash flow, and income. Capital expenditure is stored
/// negative.
#[verifier::rlimit(60)]
pub proof fn valuation_is_told(run: Run, m: MarketView, lane: int, now: int)
    requires
        known(run, m.close, lane, now),
        known(run, m.field("shares.total"@), lane, now),
        known(run, m.field("balance_sheet.equity.capital"@), lane, now),
        known(run, m.field("balance_sheet.equity.reserves"@), lane, now),
        known(run, m.field("balance_sheet.equity.parent_interests"@), lane, now),
        known(run, ttm_of(m.daily, annualized_of(m, m.income_report_signals, "income_statement.profit"@)), lane, now),
        known(run, ttm_of(m.daily, annualized_of(m, m.cf_report_signals, "cash_flow_statement.change.operating"@)), lane, now),
        known(run, ttm_of(m.daily, annualized_of(m, m.cf_report_signals, "cash_flow_statement.change.investing.out.assets"@)), lane, now),
        known(run, ttm_of(m.daily, annualized_of(m, m.cf_report_signals, "cash_flow_statement.change"@)), lane, now),
        known(run, ttm_of(m.daily, annualized_of(m, m.income_report_signals, "income_statement.profit.operating.income"@)), lane, now),
    ensures
        ({
            let price = num(run, m.close, lane, now);
            let total = num(run, m.field("shares.total"@), lane, now);
            let capital = num(run, m.field("balance_sheet.equity.capital"@), lane, now);
            let reserves = num(run, m.field("balance_sheet.equity.reserves"@), lane, now);
            let interests = num(run, m.field("balance_sheet.equity.parent_interests"@), lane, now);
            let profit = num(run, ttm_of(m.daily, annualized_of(m, m.income_report_signals, "income_statement.profit"@)), lane, now);
            let flow = num(run, ttm_of(m.daily, annualized_of(m, m.cf_report_signals, "cash_flow_statement.change.operating"@)), lane, now);
            let spent = num(run, ttm_of(m.daily, annualized_of(m, m.cf_report_signals, "cash_flow_statement.change.investing.out.assets"@)), lane, now);
            let net_flow = num(run, ttm_of(m.daily, annualized_of(m, m.cf_report_signals, "cash_flow_statement.change"@)), lane, now);
            let income = num(run, ttm_of(m.daily, annualized_of(m, m.income_report_signals, "income_statement.profit.operating.income"@)), lane, now);
            let list = raw_fund_catalog(m);
            let at = |i: int| value(run, list[i].1, lane, now);
            &&& list[41].0 == "BP_LR"@
            &&& (price * total) != 0real ==> at(41) is Some && at(41)->0 * (price * total) == (-capital - reserves - interests)
            &&& list[44].0 == "EP_TTM"@
            &&& (price * total) != 0real ==> at(44) is Some && at(44)->0 * (price * total) == profit
            &&& list[45].0 == "FCFP_TTM"@
            &&& (price * total) != 0real ==> at(45) is Some && at(45)->0 * (price * total) == (flow + spent)
            &&& list[46].0 == "NCFP_TTM"@
            &&& (price * total) != 0real ==> at(46) is Some && at(46)->0 * (price * total) == net_flow
            &&& list[47].0 == "OCFP_TTM"@
            &&& (price * total) != 0real ==> at(47) is Some && at(47)->0 * (price * total) == flow
            &&& list[49].0 == "SP_TTM"@
            &&& (price * total) != 0real ==> at(49) is Some && at(49)->0 * (price * total) == income
        }),
{
    broadcast use group_values;

    the_categories_stand_in_order(m);
    let price = num(run, m.close, lane, now);
    let total = num(run, m.field("shares.total"@), lane, now);
    let capital = num(run, m.field("balance_sheet.equity.capital"@), lane, now);
    let reserves = num(run, m.field("balance_sheet.equity.reserves"@), lane, now);
    let interests = num(run, m.field("balance_sheet.equity.parent_interests"@), lane, now);
    let profit = num(run, ttm_of(m.daily, annualized_of(m, m.income_report_signals, "income_statement.profit"@)), lane, now);
    let flow = num(run, ttm_of(m.daily, annualized_of(m, m.cf_report_signals, "cash_flow_statement.change.operating"@)), lane, now);
    let spent = num(run, ttm_of(m.daily, annualized_of(m, m.cf_report_signals, "cash_flow_statement.change.investing.out.assets"@)), lane, now);
    let net_flow = num(run, ttm_of(m.daily, annualized_of(m, m.cf_report_signals, "cash_flow_statement.change"@)), lane, now);
    let income = num(run, ttm_of(m.daily, annualized_of(m, m.income_report_signals, "income_statement.profit.operating.income"@)), lane, now);
    let list = raw_fund_catalog(m);
    if (price * total) != 0real {
        a_quotient_times_its_divisor((-capital - reserves - interests), (price * total));
    }
    if (price * total) != 0real {
        a_quotient_times_its_divisor(profit, (price * total));
    }
    if (price * total) != 0real {
        a_quotient_times_its_divisor((flow + spent), (price * total));
    }
    if (price * total) != 0real {
        a_quotient_times_its_divisor(net_flow, (price * total));
    }
    if (price * total) != 0real {
        a_quotient_times_its_divisor(flow, (price * total));
    }
    if (price * total) != 0real {
        a_quotient_times_its_divisor(income, (price * total));
    }
}

/// Whether a term carries the change over a year of what another carries: its
/// level today less its level on the first trading day of the last 365 days.
pub open spec fn is_yearly_change(run: Run, daily: Term, level: Term, change: Term) -> bool {
    forall|lane: int, now: int|
        known(run, level, lane, (run.back)(daily, now, 0)) && known(
            run,
            level,
            lane,
            (run.within)(daily, now, days_long(365)).first(),
        ) ==> #[trigger] value(run, change, lane, now) == Some(
            num(run, level, lane, (run.back)(daily, now, 0)) - num(
                run,
                level,
                lane,
                (run.within)(daily, now, days_long(365)).first(),
            ),
        )
}

/// Whether a term carries the growth over a year of what another carries: by
/// which fraction of its level then it is greater today.
pub open spec fn is_yearly_growth(run: Run, daily: Term, level: Term, growth: Term) -> bool {
    forall|lane: int, now: int|
        known(run, level, lane, (run.back)(daily, now, 0)) && known(
            run,
            level,
            lane,
            (run.within)(daily, now, days_long(365)).first(),
        ) && num(run, level, lane, (run.within)(daily, now, days_long(365)).first()) != 0real
            ==> #[trigger] value(run, growth, lane, now) is Some && num(
            run,
            level,
            lane,
            (run.within)(daily, now, days_long(365)).first(),
        ) * (1real + value(run, growth, lane, now)->0) == num(
            run,
            level,
            lane,
            (run.back)(daily, now, 0),
        )
}

proof fn changes_are_yearly(run: Run, daily: Term, level: Term)
    ensures
        is_yearly_change(run, daily, level, change_of(daily, level)),
        is_yearly_growth(run, daily, level, growth_of(daily, level)),
{
    let (change, growth) = (change_of(daily, level), growth_of(daily, level));
    assert forall|lane: int, now: int|
        known(run, level, lane, (run.back)(daily, now, 0)) && known(
            run,
            level,
            lane,
            (run.within)(daily, now, days_long(365)).first(),
        ) implies #[trigger] value(run, change, lane, now) == Some(
        num(run, level, lane, (run.back)(daily, now, 0)) - num(
            run,
            level,
            lane,
            (run.within)(daily, now, days_long(365)).first(),
        ),
    ) by {
        a_year_compares_two_days(run, daily, level, lane, now);
    }
    assert forall|lane: int, now: int|
        known(run, level, lane, (run.back)(daily, now, 0)) && known(
            run,
            level,
            lane,
            (run.within)(daily, now, days_long(365)).first(),
        ) && num(run, level, lane, (run.within)(daily, now, days_long(365)).first()) != 0real implies
        #[trigger] value(run, growth, lane, now) is Some && num(
        run,
        level,
        lane,
        (run.within)(daily, now, days_long(365)).first(),
    ) * (1real + value(run, growth, lane, now)->0) == num(
        run,
        level,
        lane,
        (run.back)(daily, now, 0),
    ) by {
        a_year_compares_two_days(run, daily, level, lane, now);
    }
}

/// A factor whose name ends in `D` is the change over a year of the one
/// before it.
#[verifier::rlimit(60)]
pub proof fn trends_are_yearly_changes(run: Run, m: MarketView)
    ensures
        ({
            let list = raw_fund_catalog(m);
            &&& list[1].0 == "ROED"@
            &&& list[0].0 == "ROE_TTM"@
            &&& is_yearly_change(run, m.daily, list[0].1, list[1].1)
            &&& list[3].0 == "ROAD"@
            &&& list[2].0 == "ROA_TTM"@
            &&& is_yearly_change(run, m.daily, list[2].1, list[3].1)
            &&& list[5].0 == "CFOAD"@
            &&& list[4].0 == "CFOA"@
            &&& is_yearly_change(run, m.daily, list[4].1, list[5].1)
            &&& list[7].0 == "ROICD"@
            &&& list[6].0 == "ROIC_TTM"@
            &&& is_yearly_change(run, m.daily, list[6].1, list[7].1)
            &&& list[17].0 == "ATD"@
            &&& list[16].0 == "AT"@
            &&& is_yearly_change(run, m.daily, list[16].1, list[17].1)
            &&& list[20].0 == "INVTD"@
            &&& list[19].0 == "INVT"@
            &&& is_yearly_change(run, m.daily, list[19].1, list[20].1)
            &&& list[23].0 == "OPMD"@
            &&& list[22].0 == "OPM_TTM"@
            &&& is_yearly_change(run, m.daily, list[22].1, list[23].1)
            &&& list[26].0 == "RATD"@
            &&& list[25].0 == "RAT"@
            &&& is_yearly_change(run, m.daily, list[25].1, list[26].1)
            &&& list[28].0 == "APRD"@
            &&& list[27].0 == "APR_TTM"@
            &&& is_yearly_change(run, m.daily, list[27].1, list[28].1)
            &&& list[30].0 == "CSRD"@
            &&& list[29].0 == "CSR"@
            &&& is_yearly_change(run, m.daily, list[29].1, list[30].1)
            &&& list[32].0 == "CCRD"@
            &&& list[31].0 == "CCR"@
            &&& is_yearly_change(run, m.daily, list[31].1, list[32].1)
            &&& list[34].0 == "CURD"@
            &&& list[33].0 == "CUR"@
            &&& is_yearly_change(run, m.daily, list[33].1, list[34].1)
            &&& list[36].0 == "DAD"@
            &&& list[35].0 == "Debt_Asset"@
            &&& is_yearly_change(run, m.daily, list[35].1, list[36].1)
            &&& list[38].0 == "DTED"@
            &&& list[37].0 == "DTE"@
            &&& is_yearly_change(run, m.daily, list[37].1, list[38].1)
            &&& list[40].0 == "QRD"@
            &&& list[39].0 == "QR"@
            &&& is_yearly_change(run, m.daily, list[39].1, list[40].1)
        }),
{
    the_categories_stand_in_order(m);
    let list = raw_fund_catalog(m);
    changes_are_yearly(run, m.daily, list[0].1);
    changes_are_yearly(run, m.daily, list[2].1);
    changes_are_yearly(run, m.daily, list[4].1);
    changes_are_yearly(run, m.daily, list[6].1);
    changes_are_yearly(run, m.daily, list[16].1);
    changes_are_yearly(run, m.daily, list[19].1);
    changes_are_yearly(run, m.daily, list[22].1);
    changes_are_yearly(run, m.daily, list[25].1);
    changes_are_yearly(run, m.daily, list[27].1);
    changes_are_yearly(run, m.daily, list[29].1);
    changes_are_yearly(run, m.daily, list[31].1);
    changes_are_yearly(run, m.daily, list[33].1);
    changes_are_yearly(run, m.daily, list[35].1);
    changes_are_yearly(run, m.daily, list[37].1);
    changes_are_yearly(run, m.daily, list[39].1);
}

/// The growth factors are of the year's profit, operating cash flow,
/// operating profit and income, of assets, of the return on equity and of
/// the profit per share.
#[verifier::rlimit(60)]
pub proof fn growths_are_yearly(run: Run, m: MarketView)
    ensures
        ({
            let list = raw_fund_catalog(m);
            let earnings = list[9].1.inputs[1];
            &&& list[10].0 == "NP_YOY"@
            &&& is_yearly_growth(run, m.daily, ttm_of(m.daily, annualized_of(m, m.income_report_signals, "income_statement.profit"@)), list[10].1)
            &&& list[11].0 == "OCF_YOY"@
            &&& is_yearly_growth(run, m.daily, ttm_of(m.daily, annualized_of(m, m.cf_report_signals, "cash_flow_statement.change.operating"@)), list[11].1)
            &&& list[12].0 == "OP_YOY"@
            &&& is_yearly_growth(run, m.daily, ttm_of(m.daily, annualized_of(m, m.income_report_signals, "income_statement.profit.operating"@)), list[12].1)
            &&& list[13].0 == "OR_YOY"@
            &&& is_yearly_growth(run, m.daily, ttm_of(m.daily, annualized_of(m, m.income_report_signals, "income_statement.profit.operating.income"@)), list[13].1)
            &&& list[15].0 == "TA_YOY"@
            &&& is_yearly_growth(run, m.daily, m.field("balance_sheet.assets"@), list[15].1)
            &&& list[14].0 == "ROE_YOY"@
            &&& is_yearly_growth(run, m.daily, list[0].1, list[14].1)
            &&& list[9].0 == "EPS_YOY"@
            &&& is_yearly_growth(run, m.daily, earnings, list[9].1)
            &&& forall|lane: int, now: int|
                known(run, ttm_of(m.daily, annualized_of(m, m.income_report_signals, "income_statement.profit"@)), lane, now) && known(
                    run,
                    m.field("shares.total"@),
                    lane,
                    now,
                ) && num(run, m.field("shares.total"@), lane, now) != 0real ==> #[trigger] num(
                    run,
                    earnings,
                    lane,
                    now,
                ) * num(run, m.field("shares.total"@), lane, now) == num(
                    run,
                    ttm_of(m.daily, annualized_of(m, m.income_report_signals, "income_statement.profit"@)),
                    lane,
                    now,
                )
        }),
{
    broadcast use group_values;

    the_categories_stand_in_order(m);
    let list = raw_fund_catalog(m);
    changes_are_yearly(run, m.daily, ttm_of(m.daily, annualized_of(m, m.income_report_signals, "income_statement.profit"@)));
    changes_are_yearly(run, m.daily, ttm_of(m.daily, annualized_of(m, m.cf_report_signals, "cash_flow_statement.change.operating"@)));
    changes_are_yearly(run, m.daily, ttm_of(m.daily, annualized_of(m, m.income_report_signals, "income_statement.profit.operating"@)));
    changes_are_yearly(run, m.daily, ttm_of(m.daily, annualized_of(m, m.income_report_signals, "income_statement.profit.operating.income"@)));
    changes_are_yearly(run, m.daily, m.field("balance_sheet.assets"@));
    changes_are_yearly(run, m.daily, list[0].1);
    let shares = m.field("shares.total"@);
    let earnings = over(net_profit(m), shares);
    changes_are_yearly(run, m.daily, earnings);
    assert(list[9].1.inputs[1] == earnings);
    assert forall|lane: int, now: int|
        known(run, net_profit(m), lane, now) && known(run, shares, lane, now) && num(
            run,
            shares,
            lane,
            now,
        ) != 0real implies #[trigger] num(run, earnings, lane, now) * num(run, shares, lane, now)
        == num(run, net_profit(m), lane, now) by {
        a_quotient_times_its_divisor(
            num(run, net_profit(m), lane, now),
            num(run, shares, lane, now),
        );
    }
}

/// The catalog ranks each factor in its cross-section, and changes nothing
/// else.
pub proof fn every_factor_is_ranked(m: MarketView, i: int)
    requires
        0 <= i < 53,
    ensures
        fund_catalog(m).len() == 53,
        fund_catalog(m)[i].0 == raw_fund_catalog(m)[i].0,
        fund_catalog(m)[i].1.op == Op::Unary(Unary::Percentile),
        fund_catalog(m)[i].1.inputs == seq![raw_fund_catalog(m)[i].1],
{
    the_categories_stand_in_order(m);
}

/// Turnover ratios are a year's flow over the mean of the balance today and
/// on the first trading day of the last 365 days: income over assets and over
/// receivables, and costs, stored negative, over inventories.
#[verifier::rlimit(60)]
pub proof fn turnovers_are_over_mean_balances(run: Run, m: MarketView, lane: int, now: int)
    requires
        ({
            let past = (run.within)(m.daily, now, days_long(365)).first();
            let held = seq![
                m.field("balance_sheet.assets"@),
                m.field("balance_sheet.assets.current.inventories"@),
                m.field("balance_sheet.assets.current.receivables.notes_and_accounts"@),
            ];
            &&& known(run, ttm_of(m.daily, annualized_of(m, m.income_report_signals, "income_statement.profit.operating.income"@)), lane, now)
            &&& known(run, ttm_of(m.daily, annualized_of(m, m.income_report_signals, "income_statement.profit.operating.expenses.costs"@)), lane, now)
            &&& forall|k: int|
                0 <= k < 3 ==> known(run, #[trigger] held[k], lane, now) && known(
                    run,
                    held[k],
                    lane,
                    past,
                ) && num(run, held[k], lane, now) + num(run, held[k], lane, past) != 0real
        }),
    ensures
        ({
            let past = (run.within)(m.daily, now, days_long(365)).first();
            let sum = |t: Term| num(run, t, lane, now) + num(run, t, lane, past);
            let list = raw_fund_catalog(m);
            let at = |i: int| value(run, list[i].1, lane, now);
            let income = num(run, ttm_of(m.daily, annualized_of(m, m.income_report_signals, "income_statement.profit.operating.income"@)), lane, now);
            let cost = num(run, ttm_of(m.daily, annualized_of(m, m.income_report_signals, "income_statement.profit.operating.expenses.costs"@)), lane, now);
            &&& list[16].0 == "AT"@
            &&& at(16) is Some && at(16)->0 * sum(m.field("balance_sheet.assets"@)) == 2real
                * income
            &&& list[19].0 == "INVT"@
            &&& at(19) is Some && at(19)->0 * sum(
                m.field("balance_sheet.assets.current.inventories"@),
            ) == 2real * -cost
            &&& list[25].0 == "RAT"@
            &&& at(25) is Some && at(25)->0 * sum(
                m.field("balance_sheet.assets.current.receivables.notes_and_accounts"@),
            ) == 2real * income
        }),
{
    broadcast use group_values;

    the_categories_stand_in_order(m);
    half_is_told();
    let past = (run.within)(m.daily, now, days_long(365)).first();
    let held = seq![
        m.field("balance_sheet.assets"@),
        m.field("balance_sheet.assets.current.inventories"@),
        m.field("balance_sheet.assets.current.receivables.notes_and_accounts"@),
    ];
    let income = num(run, total_income(m), lane, now);
    let cost = num(run, costs(m), lane, now);
    assert(known(run, held[0], lane, now) && known(run, held[1], lane, now) && known(
        run,
        held[2],
        lane,
        now,
    ));
    let half = number(Double { bits: HALF });
    let sum = |t: Term| num(run, t, lane, now) + num(run, t, lane, past);
    halves_double(income, sum(held[0]), half);
    halves_double(-cost, sum(held[1]), half);
    halves_double(income, sum(held[2]), half);
}

proof fn halves_double(x: real, y: real, half: real)
    requires
        y != 0real,
        half * 2real == 1real,
    ensures
        half * y != 0real,
        (x / (half * y)) * y == 2real * x,
{
    assert(half * y != 0real) by (nonlinear_arith)
        requires
            y != 0real,
            half * 2real == 1real,
    ;
    let q = x / (half * y);
    a_quotient_times_its_divisor(x, half * y);
    assert(q * y == 2real * x) by (nonlinear_arith)
        requires
            q * (half * y) == x,
            half * 2real == 1real,
    ;
}

proof fn half_is_told()
    ensures
        number(Double { bits: HALF }) * 2real == 1real,
        number(Double { bits: HUNDRED }) == 100real,
{
    vstd::arithmetic::power2::lemma2_to64_rest();
    patterns_are_numbers(Double { bits: HUNDRED }, 1029, 0x9_0000_0000_0000, 46, 100);
    half_of_one(Double { bits: HALF });
}

/// The gross margin's trend is the change over a year of what is left of
/// revenue after costs, which are stored negative, as a fraction of revenue.
#[verifier::rlimit(60)]
pub proof fn the_gross_margin_is_told(run: Run, m: MarketView, lane: int, now: int)
    requires
        known(run, ttm_of(m.daily, annualized_of(m, m.income_report_signals, "income_statement.profit.operating.income.revenue"@)), lane, now),
        known(run, ttm_of(m.daily, annualized_of(m, m.income_report_signals, "income_statement.profit.operating.expenses.costs"@)), lane, now),
        num(run, ttm_of(m.daily, annualized_of(m, m.income_report_signals, "income_statement.profit.operating.income.revenue"@)), lane, now) != 0real,
    ensures
        ({
            let list = raw_fund_catalog(m);
            let margin = list[18].1.inputs[1];
            let revenue = num(run, ttm_of(m.daily, annualized_of(m, m.income_report_signals, "income_statement.profit.operating.income.revenue"@)), lane, now);
            let cost = num(run, ttm_of(m.daily, annualized_of(m, m.income_report_signals, "income_statement.profit.operating.expenses.costs"@)), lane, now);
            &&& list[18].0 == "GPMD"@
            &&& is_yearly_change(run, m.daily, margin, list[18].1)
            &&& known(run, margin, lane, now)
            &&& num(run, margin, lane, now) * revenue == revenue + cost
        }),
{
    broadcast use group_values;

    the_categories_stand_in_order(m);
    let margin = over(gross(m), revenue(m));
    assert(raw_fund_catalog(m)[18].1.inputs[1] == margin);
    changes_are_yearly(run, m.daily, margin);
    a_quotient_times_its_divisor(num(run, gross(m), lane, now), num(run, revenue(m), lane, now));
}

/// Taxes over equity: the rise over a year of the taxes due, and the taxes
/// paid in it, both stored negative, as a fraction of the parent's equity.
#[verifier::rlimit(60)]
pub proof fn taxes_are_told(run: Run, m: MarketView, lane: int, now: int)
    requires
        ({
            let today = (run.back)(m.daily, now, 0);
            let past = (run.within)(m.daily, now, days_long(365)).first();
            let owed = m.field("balance_sheet.liab.current.payables.taxes"@);
            &&& known(run, owed, lane, today)
            &&& known(run, owed, lane, past)
            &&& known(run, ttm_of(m.daily, annualized_of(m, m.cf_report_signals, "cash_flow_statement.change.operating.out.taxes"@)), lane, now)
            &&& known(run, m.field("balance_sheet.equity.capital"@), lane, now)
            &&& known(run, m.field("balance_sheet.equity.reserves"@), lane, now)
            &&& known(run, m.field("balance_sheet.equity.parent_interests"@), lane, now)
        }),
    ensures
        ({
            let today = (run.back)(m.daily, now, 0);
            let past = (run.within)(m.daily, now, days_long(365)).first();
            let owed = m.field("balance_sheet.liab.current.payables.taxes"@);
            let rise = -num(run, owed, lane, today) + num(run, owed, lane, past);
            let paid = -num(run, ttm_of(m.daily, annualized_of(m, m.cf_report_signals, "cash_flow_statement.change.operating.out.taxes"@)), lane, now);
            let book = -num(run, m.field("balance_sheet.equity.capital"@), lane, now) - num(run, m.field("balance_sheet.equity.reserves"@), lane, now) - num(run, m.field("balance_sheet.equity.parent_interests"@), lane, now);
            let list = raw_fund_catalog(m);
            &&& list[8].0 == "TOE"@
            &&& book != 0real ==> known(run, list[8].1, lane, now) && num(
                run,
                list[8].1,
                lane,
                now,
            ) * book == rise + paid
        }),
{
    broadcast use group_values;

    the_categories_stand_in_order(m);
    let today = (run.back)(m.daily, now, 0);
    let past = (run.within)(m.daily, now, days_long(365)).first();
    let owed = m.field("balance_sheet.liab.current.payables.taxes"@);
    let rise = -num(run, owed, lane, today) + num(run, owed, lane, past);
    let paid = -num(run, ttm_of(m.daily, annualized_of(m, m.cf_report_signals, "cash_flow_statement.change.operating.out.taxes"@)), lane, now);
    let book = num(run, parent_equity_of(m), lane, now);
    assert(value(run, change_of(m.daily, negated(owed)), lane, now) == Some(rise));
    if book != 0real {
        a_quotient_times_its_divisor(rise + paid, book);
    }
}

/// The year's dividends are the sum of the cash dividends per share on the
/// trading days of the last 365 days, zero when there are none. The yield is
/// that per unit of price, and the payout is what all shares were paid as a
/// fraction of the year's profit.
#[verifier::rlimit(60)]
pub proof fn dividends_are_told(run: Run, m: MarketView, lane: int, now: int)
    requires
        known(run, m.close, lane, now),
        known(run, m.field("shares.total"@), lane, now),
        known(run, ttm_of(m.daily, annualized_of(m, m.income_report_signals, "income_statement.profit"@)), lane, now),
    ensures
        ({
            let events = Term {
                op: Op::Collect,
                data: PayloadView::Nothing,
                inputs: seq![m.div_signals, m.field("dividends.cash"@), m.daily],
            };
            let days = (run.within)(m.daily, now, days_long(365));
            let paid = total(|i: int| value(run, events, lane, days[i]), days.len());
            let price = num(run, m.close, lane, now);
            let shares = num(run, m.field("shares.total"@), lane, now);
            let profit = num(run, ttm_of(m.daily, annualized_of(m, m.income_report_signals, "income_statement.profit"@)), lane, now);
            let list = raw_fund_catalog(m);
            let at = |i: int| value(run, list[i].1, lane, now);
            &&& list[42].0 == "DP"@
            &&& price != 0real ==> at(42) is Some && at(42)->0 * price == paid
            &&& list[43].0 == "DPR_TTM"@
            &&& profit != 0real ==> at(43) is Some && at(43)->0 * profit == paid * shares
        }),
{
    broadcast use group_values;

    the_categories_stand_in_order(m);
    let events = t3(Op::Collect, m.div_signals, m.field("dividends.cash"@), m.daily);
    a_rolling_sum_is_a_sum(run, 0, year(), m.daily, events, lane, now);
    let days = (run.within)(m.daily, now, days_long(365));
    let f = |i: int| value(run, events, lane, days[i]);
    assert(f =~= along(run, events, lane, year(), m.daily, now));
    let paid = total(f, days.len());
    assert(value(run, dividends(m), lane, now) == Some(paid));
    let price = num(run, m.close, lane, now);
    let shares = num(run, m.field("shares.total"@), lane, now);
    let profit = num(run, net_profit(m), lane, now);
    if price != 0real {
        a_quotient_times_its_divisor(paid, price);
    }
    if profit != 0real {
        a_quotient_times_its_divisor(paid * shares, profit);
    }
}

/// The inverse of the price-earnings-growth ratio is the yearly growth of
/// profit in percent times the earnings yield.
#[verifier::rlimit(60)]
pub proof fn growth_at_a_price_is_told(run: Run, m: MarketView, lane: int, now: int)
    requires
        ({
            let today = (run.back)(m.daily, now, 0);
            let past = (run.within)(m.daily, now, days_long(365)).first();
            let profit = ttm_of(m.daily, annualized_of(m, m.income_report_signals, "income_statement.profit"@));
            &&& known(run, profit, lane, now)
            &&& known(run, profit, lane, today)
            &&& known(run, profit, lane, past)
            &&& num(run, profit, lane, past) != 0real
            &&& known(run, m.close, lane, now)
            &&& known(run, m.field("shares.total"@), lane, now)
            &&& num(run, m.close, lane, now) * num(run, m.field("shares.total"@), lane, now)
                != 0real
        }),
    ensures
        ({
            let list = raw_fund_catalog(m);
            let growth = num(run, list[10].1, lane, now);
            let yielded = num(run, list[44].1, lane, now);
            &&& list[48].0 == "PEG_INV_TTM"@
            &&& value(run, list[48].1, lane, now) == Some((100real * growth) * yielded)
        }),
{
    broadcast use group_values;

    the_categories_stand_in_order(m);
    half_is_told();
}

/// Size is told by the log of both market caps, and by the part of the shares
/// that circulates.
pub proof fn sizes_are_told(run: Run, m: MarketView, lane: int, now: int)
    requires
        known(run, m.close, lane, now),
        known(run, m.field("shares.total"@), lane, now),
        known(run, m.field("shares.circulating"@), lane, now),
        num(run, m.close, lane, now) * num(run, m.field("shares.total"@), lane, now) > 0real,
        num(run, m.close, lane, now) * num(run, m.field("shares.circulating"@), lane, now) > 0real,
    ensures
        ({
            let all = num(run, m.close, lane, now) * num(run, m.field("shares.total"@), lane, now);
            let free = num(run, m.close, lane, now) * num(
                run,
                m.field("shares.circulating"@),
                lane,
                now,
            );
            let list = raw_fund_catalog(m);
            &&& list[50].0 == "FC_MC"@
            &&& known(run, list[50].1, lane, now)
            &&& num(run, list[50].1, lane, now) * all == free
            &&& list[51].0 == "Ln_FC"@
            &&& value(run, list[51].1, lane, now) == Some((run.ln)(free))
            &&& list[52].0 == "Ln_MC"@
            &&& value(run, list[52].1, lane, now) == Some((run.ln)(all))
        }),
{
    broadcast use group_values;

    the_categories_stand_in_order(m);
    a_quotient_times_its_divisor(
        num(run, float_cap(m), lane, now),
        num(run, market_cap(m), lane, now),
    );
}

} // verus!
