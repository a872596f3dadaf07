//! Market data with the columns of the Markowitz strategy's own factors named
//! one by one.
//!
//! The daily price fields are missing where a stock did not trade;
//! `close_carried` is the last known close. Fundamental fields are carried,
//! and the flows of the income and cash flow statements are brought to a
//! per-year scale.
use vstd::prelude::*;

use crate::data::{panel, panel_file, parquet, todays};
use crate::graph::{
    Binary, Builder, Op, Pulse, Pulses, Rolling, Term, Unary, Vector, Window, Wire, binary, plain,
    port, rolling, t1, texts, unary,
};
use crate::time::Instant;
use crate::data::is_column;
use crate::meaning::{Run, cross, group_values, known, num, value};

verus! {

/// The columns of each panel.
pub const PRICE_COLUMNS: [&'static str; 6] = [
    "prices.close",
    "prices.open",
    "prices.high",
    "prices.low",
    "prices.volume",
    "prices.amount",
];

pub const DIVIDEND_COLUMNS: [&'static str; 2] = ["dividends.share", "dividends.cash"];

pub const EQUITY_COLUMNS: [&'static str; 2] = ["shares.total", "shares.circulating"];

pub const BALANCE_COLUMNS: [&'static str; 10] = [
    "balance_sheet.equity.capital",
    "balance_sheet.equity.reserves",
    "balance_sheet.equity.parent_interests",
    "balance_sheet.assets",
    "balance_sheet.liab",
    "balance_sheet.assets.current",
    "balance_sheet.liab.current",
    "balance_sheet.assets.current.cash",
    "balance_sheet.assets.current.inventories",
    "balance_sheet.assets.current.receivables.notes_and_accounts",
];

pub const INCOME_COLUMNS: [&'static str; 6] = [
    "report_year",
    "report_day_of_year",
    "income_statement.profit",
    "income_statement.profit.operating",
    "income_statement.profit.operating.income.revenue",
    "income_statement.profit.operating.expenses.costs",
];

pub const CASH_FLOW_COLUMNS: [&'static str; 3] = [
    "report_year",
    "report_day_of_year",
    "cash_flow_statement.change.operating",
];

/// The characters of each name.
pub open spec fn spelled(names: Seq<&'static str>) -> Seq<Seq<char>> {
    names.map_values(|s: &'static str| s@)
}

fn owned(names: &[&'static str]) -> (r: Vec<String>)
    ensures
        texts(r@) == spelled(names@),
        r@.len() == names@.len(),
{
    let mut out: Vec<String> = Vec::new();
    for i in 0..names.len()
        invariant
            out@.len() == i,
            forall|k: int| 0 <= k < i ==> (#[trigger] out@[k])@ == names@[k]@,
    {
        out.push(names[i].to_string());
    }
    assert(texts(out@) =~= spelled(names@));
    out
}

/// Cross-sectional market panel data.
pub struct MarketData {
    /// One pulse per trading day (when any stock has a row).
    pub daily: Wire<Pulse>,
    /// Per-stock signals: element `i` pulses on stock `i`'s trading days.
    pub price_signals: Wire<Pulses>,
    /// One pulse per income-statement effective date (when any stock
    /// reports).
    pub income_reports: Wire<Pulse>,
    pub income_report_signals: Wire<Pulses>,
    /// One pulse per cash-flow-statement effective date.
    pub cf_reports: Wire<Pulse>,
    pub cf_report_signals: Wire<Pulses>,
    pub close: Wire<Vector>,
    pub open: Wire<Vector>,
    pub high: Wire<Vector>,
    pub low: Wire<Vector>,
    pub volume: Wire<Vector>,
    pub amount: Wire<Vector>,
    /// Forward-adjusted close.
    pub adj_close: Wire<Vector>,
    /// Log forward-adjusted close, the source of the log returns.
    pub log_adj: Wire<Vector>,
    /// Daily log return of the adjusted close.
    pub log_return: Wire<Vector>,
    /// Carried closing price, missing before listing.
    pub close_carried: Wire<Vector>,
    pub div_signals: Wire<Pulses>,
    pub share_divs: Wire<Vector>,
    pub cash_divs: Wire<Vector>,
    pub total_shares: Wire<Vector>,
    pub circ_shares: Wire<Vector>,
    /// The parent's equity, positive.
    pub parent_equity: Wire<Vector>,
    pub total_assets: Wire<Vector>,
    /// Negative, like all liabilities.
    pub total_liab: Wire<Vector>,
    pub current_assets: Wire<Vector>,
    pub current_liab: Wire<Vector>,
    pub cash: Wire<Vector>,
    pub inventories: Wire<Vector>,
    pub receivables: Wire<Vector>,
    pub net_profit: Wire<Vector>,
    pub operating_profit: Wire<Vector>,
    pub revenue: Wire<Vector>,
    /// Negative, like all costs.
    pub operating_cost: Wire<Vector>,
    pub net_operating_cashflow: Wire<Vector>,
    /// Number of symbols on the axis.
    pub n: usize,
}

/// The panels of a directory, as terms.
pub ghost struct PanelTerms {
    pub prices: Term,
    pub dividends: Term,
    pub equity: Term,
    pub balance: Term,
    pub income: Term,
    pub cash_flow: Term,
}

/// The panels in a directory, between two instants.
pub open spec fn panels(
    dir: Seq<char>,
    start: Option<Instant>,
    end: Option<Instant>,
) -> PanelTerms {
    let read = |kind: Seq<char>, columns: Seq<&'static str>|
        parquet(panel_file(dir, kind), spelled(columns), start, end, false);
    PanelTerms {
        prices: read("daily_prices"@, PRICE_COLUMNS@),
        dividends: read("dividends"@, DIVIDEND_COLUMNS@),
        equity: read("equity_structures"@, EQUITY_COLUMNS@),
        balance: read("balance_sheets"@, BALANCE_COLUMNS@),
        income: read("income_statements"@, INCOME_COLUMNS@),
        cash_flow: read("cash_flow_statements"@, CASH_FLOW_COLUMNS@),
    }
}

/// Column `c` of a report panel on a per-year scale.
pub open spec fn yearly(panel: Term, c: int) -> Term {
    plain(
        Op::Annualize,
        seq![
            port(0, panel),
            port(1 + c, panel),
            t1(Op::Whole, port(1, panel)),
            t1(Op::Whole, port(2, panel)),
        ],
    )
}

impl MarketData {
    /// Whether the fields of the daily prices belong to the graph and carry
    /// what they are named for.
    pub open spec fn prices_right(self, b: Builder, p: PanelTerms) -> bool {
        let signals = port(0, p.prices);
        let daily = t1(Op::Any, signals);
        let close = todays(signals, port(1, p.prices), daily);
        let adjusted = plain(
            Op::ForwardAdjust,
            seq![
                signals,
                close,
                port(0, p.dividends),
                port(1, p.dividends),
                port(2, p.dividends),
            ],
        );
        let adj_close = todays(signals, port(1, adjusted), daily);
        let log_adj = unary(Unary::Ln, adj_close);
        &&& b.has(self.daily)
        &&& self.daily@ == daily
        &&& b.has(self.price_signals)
        &&& self.price_signals@ == signals
        &&& b.has(self.close)
        &&& self.close@ == close
        &&& b.has(self.open)
        &&& self.open@ == todays(signals, port(2, p.prices), daily)
        &&& b.has(self.high)
        &&& self.high@ == todays(signals, port(3, p.prices), daily)
        &&& b.has(self.low)
        &&& self.low@ == todays(signals, port(4, p.prices), daily)
        &&& b.has(self.volume)
        &&& self.volume@ == todays(signals, port(5, p.prices), daily)
        &&& b.has(self.amount)
        &&& self.amount@ == todays(signals, port(6, p.prices), daily)
        &&& b.has(self.adj_close)
        &&& self.adj_close@ == adj_close
        &&& b.has(self.log_adj)
        &&& self.log_adj@ == log_adj
        &&& b.has(self.log_return)
        &&& self.log_return@ == rolling(Rolling::Diff, Window::Count(1), daily, log_adj)
        &&& b.has(self.close_carried)
        &&& self.close_carried@ == port(1, p.prices)
        &&& b.has(self.div_signals)
        &&& self.div_signals@ == port(0, p.dividends)
        &&& b.has(self.share_divs)
        &&& self.share_divs@ == port(1, p.dividends)
        &&& b.has(self.cash_divs)
        &&& self.cash_divs@ == port(2, p.dividends)
    }

    /// Whether the fields of shares and balances belong to the graph and
    /// carry what they are named for.
    pub open spec fn balances_right(self, b: Builder, p: PanelTerms) -> bool {
        &&& b.has(self.total_shares)
        &&& self.total_shares@ == port(1, p.equity)
        &&& b.has(self.circ_shares)
        &&& self.circ_shares@ == port(2, p.equity)
        &&& b.has(self.parent_equity)
        &&& self.parent_equity@ == unary(
            Unary::Neg,
            binary(
                Binary::Add,
                binary(Binary::Add, port(1, p.balance), port(2, p.balance)),
                port(3, p.balance),
            ),
        )
        &&& b.has(self.total_assets)
        &&& self.total_assets@ == port(4, p.balance)
        &&& b.has(self.total_liab)
        &&& self.total_liab@ == port(5, p.balance)
        &&& b.has(self.current_assets)
        &&& self.current_assets@ == port(6, p.balance)
        &&& b.has(self.current_liab)
        &&& self.current_liab@ == port(7, p.balance)
        &&& b.has(self.cash)
        &&& self.cash@ == port(8, p.balance)
        &&& b.has(self.inventories)
        &&& self.inventories@ == port(9, p.balance)
        &&& b.has(self.receivables)
        &&& self.receivables@ == port(10, p.balance)
    }

    /// Whether the report flows belong to the graph and carry what they are
    /// named for.
    pub open spec fn flows_right(self, b: Builder, p: PanelTerms) -> bool {
        &&& b.has(self.income_report_signals)
        &&& self.income_report_signals@ == port(0, p.income)
        &&& b.has(self.income_reports)
        &&& self.income_reports@ == t1(Op::Any, port(0, p.income))
        &&& b.has(self.cf_report_signals)
        &&& self.cf_report_signals@ == port(0, p.cash_flow)
        &&& b.has(self.cf_reports)
        &&& self.cf_reports@ == t1(Op::Any, port(0, p.cash_flow))
        &&& b.has(self.net_profit)
        &&& self.net_profit@ == yearly(p.income, 2)
        &&& b.has(self.operating_profit)
        &&& self.operating_profit@ == yearly(p.income, 3)
        &&& b.has(self.revenue)
        &&& self.revenue@ == yearly(p.income, 4)
        &&& b.has(self.operating_cost)
        &&& self.operating_cost@ == yearly(p.income, 5)
        &&& b.has(self.net_operating_cashflow)
        &&& self.net_operating_cashflow@ == yearly(p.cash_flow, 2)
    }
}

/// Wires the cross-sectional fields of the Parquet panels in `dir`, read from
/// `start` to `end`.
#[verifier::rlimit(40)]
pub fn build_market_data(
    b: &mut Builder,
    dir: &str,
    start: Option<Instant>,
    end: Option<Instant>,
) -> (r: MarketData)
    requires
        old(b).ordered(),
    ensures
        final(b).grown(*old(b)),
        r.prices_right(*final(b), panels(dir@, start, end)),
        r.balances_right(*final(b), panels(dir@, start, end)),
        r.flows_right(*final(b), panels(dir@, start, end)),
        r.n == old(b).axis().len(),
{
    let n: usize = b.axis_labels().len();
    let ghost p = panels(dir@, start, end);
    let price_columns = owned(PRICE_COLUMNS.as_slice());
    let dividend_columns = owned(DIVIDEND_COLUMNS.as_slice());
    let equity_columns = owned(EQUITY_COLUMNS.as_slice());
    let balance_columns = owned(BALANCE_COLUMNS.as_slice());
    let income_columns = owned(INCOME_COLUMNS.as_slice());
    let cash_columns = owned(CASH_FLOW_COLUMNS.as_slice());
    let prices = panel(b, dir, "daily_prices", &price_columns, start, end, false);
    let divs = panel(b, dir, "dividends", &dividend_columns, start, end, false);
    let equity = panel(b, dir, "equity_structures", &equity_columns, start, end, false);
    let balance = panel(b, dir, "balance_sheets", &balance_columns, start, end, false);
    let income = panel(b, dir, "income_statements", &income_columns, start, end, false);
    let cashflow = panel(b, dir, "cash_flow_statements", &cash_columns, start, end, false);
    assert(prices.carries(*b, p.prices, 6));
    assert(divs.carries(*b, p.dividends, 2));
    assert(equity.carries(*b, p.equity, 2));
    assert(balance.carries(*b, p.balance, 10));
    assert(income.carries(*b, p.income, 6));
    assert(cashflow.carries(*b, p.cash_flow, 3));

    let price_signals = prices.signals;
    let daily = b.any(price_signals);
    let income_reports = b.any(income.signals);
    let cf_reports = b.any(cashflow.signals);
    let close = b.collect(price_signals, prices.values[0], daily);
    let open = b.collect(price_signals, prices.values[1], daily);
    let high = b.collect(price_signals, prices.values[2], daily);
    let low = b.collect(price_signals, prices.values[3], daily);
    let volume = b.collect(price_signals, prices.values[4], daily);
    let amount = b.collect(price_signals, prices.values[5], daily);
    let (_, adjusted) = b.forward_adjust(
        price_signals,
        close,
        divs.signals,
        divs.values[0],
        divs.values[1],
    );
    let adj_close = b.collect(price_signals, adjusted, daily);
    let log_adj = b.unary(Unary::Ln, adj_close);
    let log_return = b.rolling(Rolling::Diff, Window::Count(1), daily, log_adj);

    let capital_reserves = b.binary(Binary::Add, balance.values[0], balance.values[1]);
    let parent_sum = b.binary(Binary::Add, capital_reserves, balance.values[2]);
    let parent_equity = b.unary(Unary::Neg, parent_sum);

    let income_year = b.whole(income.values[0]);
    let income_doy = b.whole(income.values[1]);
    let net_profit = b.annualize(income.signals, income.values[2], income_year, income_doy);
    let operating_profit = b.annualize(
        income.signals,
        income.values[3],
        income_year,
        income_doy,
    );
    let revenue = b.annualize(income.signals, income.values[4], income_year, income_doy);
    let operating_cost = b.annualize(income.signals, income.values[5], income_year, income_doy);
    let cf_year = b.whole(cashflow.values[0]);
    let cf_doy = b.whole(cashflow.values[1]);
    let net_operating_cashflow = b.annualize(
        cashflow.signals,
        cashflow.values[2],
        cf_year,
        cf_doy,
    );
    MarketData {
        daily,
        price_signals,
        income_reports,
        income_report_signals: income.signals,
        cf_reports,
        cf_report_signals: cashflow.signals,
        close,
        open,
        high,
        low,
        volume,
        amount,
        adj_close,
        log_adj,
        log_return,
        close_carried: prices.values[0],
        div_signals: divs.signals,
        share_divs: divs.values[0],
        cash_divs: divs.values[1],
        total_shares: equity.values[0],
        circ_shares: equity.values[1],
        parent_equity,
        total_assets: balance.values[3],
        total_liab: balance.values[4],
        current_assets: balance.values[5],
        current_liab: balance.values[6],
        cash: balance.values[7],
        inventories: balance.values[8],
        receivables: balance.values[9],
        net_profit,
        operating_profit,
        revenue,
        operating_cost,
        net_operating_cashflow,
        n,
    }
}

/// Every field carries the column that it is named for.
pub proof fn fields_are_their_columns(
    m: MarketData,
    b: Builder,
    dir: Seq<char>,
    start: Option<Instant>,
    end: Option<Instant>,
)
    requires
        m.prices_right(b, panels(dir, start, end)),
        m.balances_right(b, panels(dir, start, end)),
        m.flows_right(b, panels(dir, start, end)),
    ensures
        ({
            let prices = dir + "/"@ + "daily_prices"@ + ".parquet"@;
            let income = dir + "/"@ + "income_statements"@ + ".parquet"@;
            let reported = dir + "/"@ + "cash_flow_statements"@ + ".parquet"@;
            &&& m.close@.op == Op::Collect
            &&& m.close@.inputs[0] == m.price_signals@ && m.close@.inputs[2] == m.daily@
            &&& is_column(m.close@.inputs[1], prices, "prices.close"@)
            &&& m.open@.op == Op::Collect
            &&& m.open@.inputs[0] == m.price_signals@ && m.open@.inputs[2] == m.daily@
            &&& is_column(m.open@.inputs[1], prices, "prices.open"@)
            &&& m.high@.op == Op::Collect
            &&& m.high@.inputs[0] == m.price_signals@ && m.high@.inputs[2] == m.daily@
            &&& is_column(m.high@.inputs[1], prices, "prices.high"@)
            &&& m.low@.op == Op::Collect
            &&& m.low@.inputs[0] == m.price_signals@ && m.low@.inputs[2] == m.daily@
            &&& is_column(m.low@.inputs[1], prices, "prices.low"@)
            &&& m.volume@.op == Op::Collect
            &&& m.volume@.inputs[0] == m.price_signals@ && m.volume@.inputs[2] == m.daily@
            &&& is_column(m.volume@.inputs[1], prices, "prices.volume"@)
            &&& m.amount@.op == Op::Collect
            &&& m.amount@.inputs[0] == m.price_signals@ && m.amount@.inputs[2] == m.daily@
            &&& is_column(m.amount@.inputs[1], prices, "prices.amount"@)
            &&& is_column(m.close_carried@, prices, "prices.close"@)
            &&& m.price_signals@.op == Op::Port(0)
            &&& m.price_signals@.inputs == m.close_carried@.inputs
            &&& m.div_signals@.op == Op::Port(0)
            &&& m.div_signals@.inputs == m.share_divs@.inputs
            &&& is_column(m.share_divs@, dir + "/"@ + "dividends"@ + ".parquet"@, "dividends.share"@)
            &&& is_column(m.cash_divs@, dir + "/"@ + "dividends"@ + ".parquet"@, "dividends.cash"@)
            &&& is_column(m.total_shares@, dir + "/"@ + "equity_structures"@ + ".parquet"@, "shares.total"@)
            &&& is_column(m.circ_shares@, dir + "/"@ + "equity_structures"@ + ".parquet"@, "shares.circulating"@)
            &&& is_column(m.total_assets@, dir + "/"@ + "balance_sheets"@ + ".parquet"@, "balance_sheet.assets"@)
            &&& is_column(m.total_liab@, dir + "/"@ + "balance_sheets"@ + ".parquet"@, "balance_sheet.liab"@)
            &&& is_column(m.current_assets@, dir + "/"@ + "balance_sheets"@ + ".parquet"@, "balance_sheet.assets.current"@)
            &&& is_column(m.current_liab@, dir + "/"@ + "balance_sheets"@ + ".parquet"@, "balance_sheet.liab.current"@)
            &&& is_column(m.cash@, dir + "/"@ + "balance_sheets"@ + ".parquet"@, "balance_sheet.assets.current.cash"@)
            &&& is_column(m.inventories@, dir + "/"@ + "balance_sheets"@ + ".parquet"@, "balance_sheet.assets.current.inventories"@)
            &&& is_column(m.receivables@, dir + "/"@ + "balance_sheets"@ + ".parquet"@, "balance_sheet.assets.current.receivables.notes_and_accounts"@)
            &&& m.net_profit@.op == Op::Annualize
            &&& m.net_profit@.inputs[0] == m.income_report_signals@
            &&& is_column(m.net_profit@.inputs[1], income, "income_statement.profit"@)
            &&& is_column(m.net_profit@.inputs[2].inputs[0], income, "report_year"@)
            &&& is_column(m.net_profit@.inputs[3].inputs[0], income, "report_day_of_year"@)
            &&& m.operating_profit@.op == Op::Annualize
            &&& m.operating_profit@.inputs[0] == m.income_report_signals@
            &&& is_column(m.operating_profit@.inputs[1], income, "income_statement.profit.operating"@)
            &&& is_column(m.operating_profit@.inputs[2].inputs[0], income, "report_year"@)
            &&& is_column(m.operating_profit@.inputs[3].inputs[0], income, "report_day_of_year"@)
            &&& m.revenue@.op == Op::Annualize
            &&& m.revenue@.inputs[0] == m.income_report_signals@
            &&& is_column(m.revenue@.inputs[1], income, "income_statement.profit.operating.income.revenue"@)
            &&& is_column(m.revenue@.inputs[2].inputs[0], income, "report_year"@)
            &&& is_column(m.revenue@.inputs[3].inputs[0], income, "report_day_of_year"@)
            &&& m.operating_cost@.op == Op::Annualize
            &&& m.operating_cost@.inputs[0] == m.income_report_signals@
            &&& is_column(m.operating_cost@.inputs[1], income, "income_statement.profit.operating.expenses.costs"@)
            &&& is_column(m.operating_cost@.inputs[2].inputs[0], income, "report_year"@)
            &&& is_column(m.operating_cost@.inputs[3].inputs[0], income, "report_day_of_year"@)
            &&& m.net_operating_cashflow@.op == Op::Annualize
            &&& m.net_operating_cashflow@.inputs[0] == m.cf_report_signals@
            &&& is_column(
                m.net_operating_cashflow@.inputs[1],
                reported,
                "cash_flow_statement.change.operating"@,
            )
            &&& is_column(m.net_operating_cashflow@.inputs[2].inputs[0], reported, "report_year"@)
            &&& is_column(
                m.net_operating_cashflow@.inputs[3].inputs[0],
                reported,
                "report_day_of_year"@,
            )
        }),
{
}

/// The parent's equity is capital, reserves and the parent's interests, which
/// are stored negative, as a positive number; and the log return of a day is
/// the log of the adjusted close less that of the trading day before.
pub proof fn equity_and_returns_are_told(
    run: Run,
    m: MarketData,
    b: Builder,
    dir: Seq<char>,
    start: Option<Instant>,
    end: Option<Instant>,
    lane: int,
    now: int,
)
    requires
        m.prices_right(b, panels(dir, start, end)),
        m.balances_right(b, panels(dir, start, end)),
    ensures
        ({
            let balance = panels(dir, start, end).balance;
            let file = dir + "/"@ + "balance_sheets"@ + ".parquet"@;
            let (x, y, z) = (port(1, balance), port(2, balance), port(3, balance));
            let (today, before) = ((run.back)(m.daily@, now, 0), (run.back)(m.daily@, now, 1));
            let adjusted = m.adj_close@;
            &&& is_column(x, file, "balance_sheet.equity.capital"@)
            &&& is_column(y, file, "balance_sheet.equity.reserves"@)
            &&& is_column(z, file, "balance_sheet.equity.parent_interests"@)
            &&& known(run, x, lane, now) && known(run, y, lane, now) && known(run, z, lane, now)
                ==> value(run, m.parent_equity@, lane, now) == Some(
                -num(run, x, lane, now) - num(run, y, lane, now) - num(run, z, lane, now),
            )
            &&& adjusted.op == Op::Collect
            &&& adjusted.inputs[1].op == Op::Port(1)
            &&& adjusted.inputs[1].inputs[0].op == Op::ForwardAdjust
            &&& adjusted.inputs[1].inputs[0].inputs == seq![
                m.price_signals@,
                m.close@,
                m.div_signals@,
                m.share_divs@,
                m.cash_divs@,
            ]
            &&& known(run, adjusted, lane, today) && known(run, adjusted, lane, before) && num(
                run,
                adjusted,
                lane,
                today,
            ) > 0real && num(run, adjusted, lane, before) > 0real ==> value(
                run,
                m.log_return@,
                lane,
                now,
            ) == Some(
                (run.ln)(num(run, adjusted, lane, today)) - (run.ln)(
                    num(run, adjusted, lane, before),
                ),
            )
        }),
{
    broadcast use group_values;

    let balance = panels(dir, start, end).balance;
    let (x, y, z) = (port(1, balance), port(2, balance), port(3, balance));
    let sum = binary(Binary::Add, binary(Binary::Add, x, y), z);
    assert(cross(run, sum, now)(lane) == value(run, sum, lane, now));
    let (today, before) = ((run.back)(m.daily@, now, 0), (run.back)(m.daily@, now, 1));
    assert(cross(run, m.adj_close@, today)(lane) == value(run, m.adj_close@, lane, today));
    assert(cross(run, m.adj_close@, before)(lane) == value(run, m.adj_close@, lane, before));
    assert(m.adj_close@.inputs[1].inputs[0].inputs =~= seq![
        m.price_signals@,
        m.close@,
        m.div_signals@,
        m.share_divs@,
        m.cash_divs@,
    ]);
}

} // verus!
