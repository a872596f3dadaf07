//! What the feature catalogs share: trailing-year helpers, report flows, the
//! finalizers that bring a feature to its model-ready form, and lists of
//! named features.
use vstd::prelude::*;

use crate::data::{MarketData, MarketView, all_in, named};
use crate::double::Double;
use crate::graph::{
    Binary, Builder, Matrix, Op, Pulse, Pulses, Rolling, Term, Unary, Vector, Window, Wire, binary,
    plain, rolling, t1, unary,
};
use crate::text::{
    debug_form, debug_text, first_segment, first_segment_is, same_text, segment_of,
};
use crate::time::Duration;
use crate::meaning::{
    Run, a_quotient_times_its_divisor, a_rolling_mean_is_a_mean, along, closest, cross, days_long,
    group_values, known, mean, num, number, patterns_are_numbers, present, total, value,
};

verus! {

/// The nanoseconds of 365 days, the window of the trailing-year helpers.
pub const YEAR: i64 = 31_536_000_000_000_000;

/// The model-ready feature panel.
pub struct Features {
    /// Feature names, in column order.
    pub schema: Vec<String>,
    /// The live panel the predictors regress on: a row per stock, a column
    /// per feature.
    pub panel: Wire<Matrix>,
}

/// The window of the trailing-year helpers.
pub open spec fn year() -> Window {
    Window::Span(Duration { nanos: YEAR })
}

/// The trailing-year mean of a flow.
pub open spec fn ttm_of(daily: Term, flow: Term) -> Term {
    rolling(Rolling::Mean(1), year(), daily, flow)
}

/// The change over a year.
pub open spec fn change_of(daily: Term, level: Term) -> Term {
    rolling(Rolling::Diff, year(), daily, level)
}

/// The growth over a year.
pub open spec fn growth_of(daily: Term, level: Term) -> Term {
    rolling(Rolling::PctChange, year(), daily, level)
}

/// Trailing-twelve-month of an annualized flow: a 365-day rolling mean of the
/// annualized (effective-date-aligned) report stream.
pub fn ttm(b: &mut Builder, daily: Wire<Pulse>, flow: Wire<Vector>) -> (r: Wire<Vector>)
    requires
        old(b).ordered(),
        old(b).has(daily),
        old(b).has(flow),
    ensures
        final(b).added(*old(b), r, ttm_of(daily@, flow@)),
{
    b.rolling(Rolling::Mean(1), Window::Span(Duration { nanos: YEAR }), daily, flow)
}

/// Year-over-year delta.
pub fn change(b: &mut Builder, daily: Wire<Pulse>, level: Wire<Vector>) -> (r: Wire<Vector>)
    requires
        old(b).ordered(),
        old(b).has(daily),
        old(b).has(level),
    ensures
        final(b).added(*old(b), r, change_of(daily@, level@)),
{
    b.rolling(Rolling::Diff, Window::Span(Duration { nanos: YEAR }), daily, level)
}

/// Year-over-year growth.
pub fn growth(b: &mut Builder, daily: Wire<Pulse>, level: Wire<Vector>) -> (r: Wire<Vector>)
    requires
        old(b).ordered(),
        old(b).has(daily),
        old(b).has(level),
    ensures
        final(b).added(*old(b), r, growth_of(daily@, level@)),
{
    b.rolling(Rolling::PctChange, Window::Span(Duration { nanos: YEAR }), daily, level)
}

/// The name of the report-year column that goes with a report field.
pub open spec fn year_name(name: Seq<char>) -> Seq<char> {
    first_segment(name) + ".report_year"@
}

/// The name of the report-day column that goes with a report field.
pub open spec fn day_name(name: Seq<char>) -> Seq<char> {
    first_segment(name) + ".report_day_of_year"@
}

/// Whether a report field is there, with the columns that date its reports.
pub open spec fn has_flow(m: MarketView, name: Seq<char>) -> bool {
    m.has_field(name) && m.has_field(year_name(name)) && m.has_field(day_name(name))
}

/// A report field brought to a per-year scale.
pub open spec fn annualized_of(m: MarketView, signals: Term, name: Seq<char>) -> Term {
    plain(
        Op::Annualize,
        seq![
            signals,
            m.field(name),
            t1(Op::Whole, m.field(year_name(name))),
            t1(Op::Whole, m.field(day_name(name))),
        ],
    )
}

/// Annualized (year-to-date to per-year) report flow named `name`, gated per
/// element by the panel's per-stock report signals. The name's first segment
/// is the panel's field prefix, which locates the `report_year` and
/// `report_day_of_year` columns.
pub fn annualized(
    b: &mut Builder,
    m: &MarketData,
    report_signals: Wire<Pulses>,
    name: &str,
) -> (r: Wire<Vector>)
    requires
        old(b).ordered(),
        m.belongs(*old(b)),
        old(b).has(report_signals),
        has_flow(m@, name@),
    ensures
        final(b).grown(*old(b)),
        final(b).has(r),
        r@ == annualized_of(m@, report_signals@, name@),
{
    let prefix = segment_of(name);
    let year_field = m.field(prefix.clone().concat(".report_year").as_str());
    let day_field = m.field(prefix.concat(".report_day_of_year").as_str());
    let value = m.field(name);
    let year = b.whole(year_field);
    let day = b.whole(day_field);
    b.annualize(report_signals, value, year, day)
}

/// The parent's equity, as a positive number.
pub open spec fn parent_equity_of(m: MarketView) -> Term {
    unary(
        Unary::Neg,
        binary(
            Binary::Add,
            binary(
                Binary::Add,
                m.field("balance_sheet.equity.capital"@),
                m.field("balance_sheet.equity.reserves"@),
            ),
            m.field("balance_sheet.equity.parent_interests"@),
        ),
    )
}

/// Whether the fields of the parent's equity are there.
pub open spec fn has_equity(m: MarketView) -> bool {
    &&& m.has_field("balance_sheet.equity.capital"@)
    &&& m.has_field("balance_sheet.equity.reserves"@)
    &&& m.has_field("balance_sheet.equity.parent_interests"@)
}

/// The parent's equity (carried, positive): the balance-sheet components are
/// stored credit-negative, so their sum is negated.
pub fn parent_equity(b: &mut Builder, m: &MarketData) -> (r: Wire<Vector>)
    requires
        old(b).ordered(),
        m.belongs(*old(b)),
        has_equity(m@),
    ensures
        final(b).grown(*old(b)),
        final(b).has(r),
        r@ == parent_equity_of(m@),
{
    let capital = m.field("balance_sheet.equity.capital");
    let reserves = m.field("balance_sheet.equity.reserves");
    let interests = m.field("balance_sheet.equity.parent_interests");
    let capital_reserves = b.binary(Binary::Add, capital, reserves);
    let parent_sum = b.binary(Binary::Add, capital_reserves, interests);
    b.unary(Unary::Neg, parent_sum)
}

/// The bit pattern of `0.01`, the share of either tail that is winsorized.
pub const TAIL: u64 = 0x3f84_7ae1_47ae_147b;

/// The bit patterns of `5.0` and `-5.0`, what a normalized feature is clamped
/// to. Beyond about this far out a cross-sectional value is a data artifact,
/// and what matters is to bound its leverage over the models.
pub const Z_LIMIT: u64 = 0x4014_0000_0000_0000;

pub const MINUS_Z_LIMIT: u64 = 0xc014_0000_0000_0000;

/// A feature winsorized at its 1% tails.
pub open spec fn winsorized(x: Term) -> Term {
    unary(Unary::Winsorize(Double { bits: TAIL }), x)
}

/// A feature in its exposure form.
pub open spec fn normalized(x: Term) -> Term {
    unary(
        Unary::Clamp(Double { bits: MINUS_Z_LIMIT }, Double { bits: Z_LIMIT }),
        unary(Unary::StandardizeOrZero, winsorized(x)),
    )
}

/// Turns a raw feature value into its exposure form: cross-sectionally
/// winsorized at the 1% tails, z-scored to mean zero and standard deviation
/// one over the values present, and clamped.
pub fn normalize(b: &mut Builder, h: Wire<Vector>) -> (r: Wire<Vector>)
    requires
        old(b).ordered(),
        old(b).has(h),
    ensures
        final(b).grown(*old(b)),
        final(b).has(r),
        r@ == normalized(h@),
{
    let cut = b.unary(Unary::Winsorize(Double { bits: TAIL }), h);
    let scored = b.unary(Unary::StandardizeOrZero, cut);
    b.unary(Unary::Clamp(Double { bits: MINUS_Z_LIMIT }, Double { bits: Z_LIMIT }), scored)
}

/// A feature winsorized, with its missing values filled in.
pub open spec fn imputed(x: Term) -> Term {
    unary(Unary::Impute, winsorized(x))
}

/// Turns a raw feature value into its model-ready form: cross-sectionally
/// winsorized at the 1% tails, a missing value filled with the mean of the
/// winsorized values.
pub fn winsorize_impute(b: &mut Builder, h: Wire<Vector>) -> (r: Wire<Vector>)
    requires
        old(b).ordered(),
        old(b).has(h),
    ensures
        final(b).grown(*old(b)),
        final(b).has(r),
        r@ == imputed(h@),
{
    let cut = b.unary(Unary::Winsorize(Double { bits: TAIL }), h);
    b.unary(Unary::Impute, cut)
}

/// Adds a named feature to a list.
pub(crate) fn enlist(
    b: &Builder,
    entries: &mut Vec<(String, Wire<Vector>)>,
    name: &str,
    h: Wire<Vector>,
)
    requires
        all_in(*b, old(entries)@),
        b.has(h),
    ensures
        all_in(*b, final(entries)@),
        named(final(entries)@) == named(old(entries)@).push((name@, h@)),
        final(entries)@.len() == old(entries)@.len() + 1,
        final(entries)@.last().1 == h,
        forall|i: int|
            0 <= i < old(entries)@.len() ==> #[trigger] final(entries)@[i] == old(entries)@[i],
{
    entries.push((name.to_string(), h));
    assert(named(entries@) =~= named(old(entries)@).push((name@, h@)));
}

/// Adds a list of named features behind another.
pub(crate) fn append(
    entries: &mut Vec<(String, Wire<Vector>)>,
    more: Vec<(String, Wire<Vector>)>,
)
    ensures
        final(entries)@ == old(entries)@ + more@,
        named(final(entries)@) == named(old(entries)@) + named(more@),
{
    let mut rest = more;
    entries.append(&mut rest);
    assert(named(entries@) =~= named(old(entries)@) + named(more@));
}

/// The place of the first of the first `n` entries that is named `name`, or
/// -1.
pub open spec fn first_named(entries: Seq<(String, Wire<Vector>)>, name: Seq<char>, n: int) -> int
    decreases n,
{
    if n <= 0 {
        -1
    } else if first_named(entries, name, n - 1) >= 0 {
        first_named(entries, name, n - 1)
    } else if entries[n - 1].0@ == name {
        n - 1
    } else {
        -1
    }
}

/// The first `n` entries without those whose name an earlier one has.
pub open spec fn first_of_each(entries: Seq<(String, Wire<Vector>)>, n: int) -> Seq<
    (String, Wire<Vector>),
>
    decreases n,
{
    if n <= 0 {
        seq![]
    } else if first_named(entries, entries[n - 1].0@, n - 1) < 0 {
        first_of_each(entries, n - 1).push(entries[n - 1])
    } else {
        first_of_each(entries, n - 1)
    }
}

/// The names of the first `n` entries that stand for another wire than the
/// entry kept of that name, which is the first, in order.
pub open spec fn clashes(entries: Seq<(String, Wire<Vector>)>, n: int) -> Seq<Seq<char>>
    decreases n,
{
    if n <= 0 {
        seq![]
    } else {
        let k = first_named(entries, entries[n - 1].0@, n - 1);
        if k >= 0 && entries[k].1.at() != entries[n - 1].1.at() {
            clashes(entries, n - 1).push(entries[n - 1].0@)
        } else {
            clashes(entries, n - 1)
        }
    }
}

fn find_first(entries: &Vec<(String, Wire<Vector>)>, name: &str, n: usize) -> (r: Option<usize>)
    requires
        n <= entries@.len(),
    ensures
        match r {
            Some(k) => k == first_named(entries@, name@, n as int) && k < n,
            None => first_named(entries@, name@, n as int) < 0,
        },
{
    for i in 0..n
        invariant
            n <= entries@.len(),
            first_named(entries@, name@, i as int) < 0,
    {
        if same_text(entries[i].0.as_str(), name) {
            proof {
                the_first_stays(entries@, name@, i + 1, n as int);
            }
            return Some(i);
        }
    }
    None
}

proof fn the_first_stays(entries: Seq<(String, Wire<Vector>)>, name: Seq<char>, m: int, n: int)
    requires
        m <= n,
        first_named(entries, name, m) >= 0,
    ensures
        first_named(entries, name, n) == first_named(entries, name, m),
    decreases n - m,
{
    if m < n {
        the_first_stays(entries, name, m, n - 1);
    }
}

/// Drops later entries whose name a catalog already used, and gives the names
/// of those that stood for another wire than the one kept, so that a
/// collision of genuinely different features is visible. Formulas of the same
/// spelling share a wire; nodes wired by hand do not.
pub fn dedup_entries(entries: &mut Vec<(String, Wire<Vector>)>) -> (r: Vec<String>)
    ensures
        final(entries)@ == first_of_each(old(entries)@, old(entries)@.len() as int),
        r@.len() == clashes(old(entries)@, old(entries)@.len() as int).len(),
        forall|i: int|
            0 <= i < r@.len() ==> (#[trigger] r@[i])@ == clashes(
                old(entries)@,
                old(entries)@.len() as int,
            )[i],
{
    let mut kept: Vec<(String, Wire<Vector>)> = Vec::new();
    let mut names: Vec<String> = Vec::new();
    let ghost all = entries@;
    for i in 0..entries.len()
        invariant
            entries@ == all,
            all == old(entries)@,
            kept@ == first_of_each(all, i as int),
            names@.len() == clashes(all, i as int).len(),
            forall|k: int|
                0 <= k < names@.len() ==> (#[trigger] names@[k])@ == clashes(all, i as int)[k],
    {
        let name = entries[i].0.clone();
        let h = entries[i].1;
        match find_first(entries, name.as_str(), i) {
            None => {
                kept.push((name, h));
            },
            Some(k) => {
                if entries[k].1.index() != h.index() {
                    names.push(name);
                }
            },
        }
    }
    *entries = kept;
    names
}

/// The warning about a name that several features have.
pub open spec fn duplicate_warning(name: Seq<char>) -> Seq<char> {
    "warning: duplicate feature "@ + debug_form(name) + "; keeping the first"@
}

/// The warning about a name that several features have.
pub fn duplicate_text(name: &str) -> (r: String)
    ensures
        r@ == duplicate_warning(name@),
{
    "warning: duplicate feature ".to_string().concat(debug_text(name).as_str()).concat(
        "; keeping the first",
    )
}

proof fn the_first_is_found(entries: Seq<(String, Wire<Vector>)>, name: Seq<char>, n: int, k: int)
    requires
        0 <= k < n <= entries.len(),
        entries[k].0@ == name,
    ensures
        0 <= first_named(entries, name, n) <= k,
        entries[first_named(entries, name, n)].0@ == name,
    decreases n,
{
    if k < n - 1 {
        the_first_is_found(entries, name, n - 1, k);
    } else if first_named(entries, name, n - 1) >= 0 {
        the_first_has_the_name(entries, name, n - 1);
    }
}

proof fn the_first_has_the_name(entries: Seq<(String, Wire<Vector>)>, name: Seq<char>, n: int)
    requires
        0 <= n <= entries.len(),
        first_named(entries, name, n) >= 0,
    ensures
        first_named(entries, name, n) < n,
        entries[first_named(entries, name, n)].0@ == name,
    decreases n,
{
    if n > 0 && first_named(entries, name, n - 1) >= 0 {
        the_first_has_the_name(entries, name, n - 1);
    }
}

proof fn kept_is_given(entries: Seq<(String, Wire<Vector>)>, n: int, i: int) -> (k: int)
    requires
        0 <= n <= entries.len(),
        0 <= i < first_of_each(entries, n).len(),
    ensures
        0 <= k < n,
        entries[k] == first_of_each(entries, n)[i],
    decreases n,
{
    if i < first_of_each(entries, n - 1).len() {
        kept_is_given(entries, n - 1, i)
    } else {
        n - 1
    }
}

/// No two of the entries kept share a name.
pub proof fn kept_names_are_distinct(
    entries: Seq<(String, Wire<Vector>)>,
    n: int,
    i: int,
    j: int,
)
    requires
        0 <= n <= entries.len(),
        0 <= i < j < first_of_each(entries, n).len(),
    ensures
        first_of_each(entries, n)[i].0@ != first_of_each(entries, n)[j].0@,
    decreases n,
{
    let before = first_of_each(entries, n - 1);
    if j < before.len() {
        kept_names_are_distinct(entries, n - 1, i, j);
    } else {
        let k = kept_is_given(entries, n - 1, i);
        if entries[k].0@ == entries[n - 1].0@ {
            the_first_is_found(entries, entries[n - 1].0@, n - 1, k);
        }
    }
}

/// Every name that came up is kept, by the entry that came first.
pub proof fn every_name_is_kept(entries: Seq<(String, Wire<Vector>)>, n: int, k: int) -> (i: int)
    requires
        0 <= k < n <= entries.len(),
    ensures
        0 <= i < first_of_each(entries, n).len(),
        first_of_each(entries, n)[i].0@ == entries[k].0@,
    decreases n, n - k,
{
    let before = first_of_each(entries, n - 1);
    if k < n - 1 {
        every_name_is_kept(entries, n - 1, k)
    } else if first_named(entries, entries[k].0@, n - 1) < 0 {
        before.len() as int
    } else {
        the_first_has_the_name(entries, entries[k].0@, n - 1);
        every_name_is_kept(entries, n - 1, first_named(entries, entries[k].0@, n - 1))
    }
}

/// The names of the columns that date the reports of the income and cash flow
/// statements.
pub(crate) proof fn report_names()
    ensures
        "income_statement"@ + ".report_year"@ == "income_statement.report_year"@,
        "income_statement"@ + ".report_day_of_year"@ == "income_statement.report_day_of_year"@,
        "cash_flow_statement"@ + ".report_year"@ == "cash_flow_statement.report_year"@,
        "cash_flow_statement"@ + ".report_day_of_year"@
            == "cash_flow_statement.report_day_of_year"@,
{
    reveal_strlit("income_statement");
    reveal_strlit("cash_flow_statement");
    reveal_strlit(".report_year");
    reveal_strlit(".report_day_of_year");
    reveal_strlit("income_statement.report_year");
    reveal_strlit("income_statement.report_day_of_year");
    reveal_strlit("cash_flow_statement.report_year");
    reveal_strlit("cash_flow_statement.report_day_of_year");
    assert("income_statement"@ + ".report_year"@ =~= "income_statement.report_year"@);
    assert("income_statement"@ + ".report_day_of_year"@
        =~= "income_statement.report_day_of_year"@);
    assert("cash_flow_statement"@ + ".report_year"@ =~= "cash_flow_statement.report_year"@);
    assert("cash_flow_statement"@ + ".report_day_of_year"@
        =~= "cash_flow_statement.report_day_of_year"@);
}

/// The first segments of the income statement's names.
pub(crate) proof fn income_segments()
    ensures
        first_segment("income_statement.profit"@) == "income_statement"@,
        first_segment("income_statement.profit.operating"@) == "income_statement"@,
        first_segment("income_statement.profit.operating.income"@) == "income_statement"@,
        first_segment("income_statement.profit.operating.income.revenue"@) == "income_statement"@,
        first_segment("income_statement.profit.operating.expenses.costs"@) == "income_statement"@,
{
    reveal_strlit("income_statement");
    reveal_strlit("income_statement.profit");
    reveal_strlit("income_statement.profit.operating");
    reveal_strlit("income_statement.profit.operating.income");
    reveal_strlit("income_statement.profit.operating.income.revenue");
    reveal_strlit("income_statement.profit.operating.expenses.costs");
    first_segment_is("income_statement.profit"@, "income_statement"@);
    first_segment_is("income_statement.profit.operating"@, "income_statement"@);
    first_segment_is("income_statement.profit.operating.income"@, "income_statement"@);
    first_segment_is("income_statement.profit.operating.income.revenue"@, "income_statement"@);
    first_segment_is("income_statement.profit.operating.expenses.costs"@, "income_statement"@);
}

/// The first segments of the cash flow statement's names.
pub(crate) proof fn cash_flow_segments()
    ensures
        first_segment("cash_flow_statement.change"@) == "cash_flow_statement"@,
        first_segment("cash_flow_statement.change.operating"@) == "cash_flow_statement"@,
        first_segment("cash_flow_statement.change.investing.out.assets"@)
            == "cash_flow_statement"@,
        first_segment("cash_flow_statement.change.operating.out.taxes"@)
            == "cash_flow_statement"@,
{
    reveal_strlit("cash_flow_statement");
    reveal_strlit("cash_flow_statement.change");
    reveal_strlit("cash_flow_statement.change.operating");
    reveal_strlit("cash_flow_statement.change.investing.out.assets");
    reveal_strlit("cash_flow_statement.change.operating.out.taxes");
    first_segment_is("cash_flow_statement.change"@, "cash_flow_statement"@);
    first_segment_is("cash_flow_statement.change.operating"@, "cash_flow_statement"@);
    first_segment_is(
        "cash_flow_statement.change.investing.out.assets"@,
        "cash_flow_statement"@,
    );
    first_segment_is("cash_flow_statement.change.operating.out.taxes"@, "cash_flow_statement"@);
}

/// A trailing-year flow is the mean of what the stream carried on the trading
/// days of the last 365 days, whatever their number, and missing only when it
/// carried nothing.
pub proof fn a_trailing_year_is_a_mean(run: Run, daily: Term, flow: Term, lane: int, now: int)
    ensures
        ({
            let days = (run.within)(daily, now, days_long(365));
            let samples = |i: int| value(run, flow, lane, days[i]);
            value(run, ttm_of(daily, flow), lane, now) == if present(samples, days.len()) == 0 {
                None
            } else {
                Some(total(samples, days.len()) / (present(samples, days.len()) as real))
            }
        }),
{
    a_rolling_mean_is_a_mean(run, 1, year(), daily, flow, lane, now);
    let days = (run.within)(daily, now, days_long(365));
    let samples = |i: int| value(run, flow, lane, days[i]);
    assert(samples =~= along(run, flow, lane, year(), daily, now));
}

/// A change over a year is what a level is now less what it was on the first
/// trading day of the last 365 days; its growth is that change as a fraction
/// of what it was.
pub proof fn a_year_compares_two_days(run: Run, daily: Term, level: Term, lane: int, now: int)
    requires
        known(run, level, lane, (run.back)(daily, now, 0)),
        known(
            run,
            level,
            lane,
            (run.within)(daily, now, days_long(365)).first(),
        ),
    ensures
        ({
            let today = num(run, level, lane, (run.back)(daily, now, 0));
            let days = (run.within)(daily, now, days_long(365));
            let past = num(run, level, lane, days.first());
            &&& value(run, change_of(daily, level), lane, now) == Some(today - past)
            &&& past != 0real ==> {
                &&& known(run, growth_of(daily, level), lane, now)
                &&& past * (1real + num(run, growth_of(daily, level), lane, now)) == today
            }
        }),
{
    broadcast use group_values;

    let today = num(run, level, lane, (run.back)(daily, now, 0));
    let days = (run.within)(daily, now, days_long(365));
    let past = num(run, level, lane, days.first());
    if past != 0real {
        a_quotient_times_its_divisor(today - past, past);
        let g = (today - past) / past;
        assert(past * (1real + g) == past + past * g) by (nonlinear_arith);
    }
}

/// A report flow is brought to a year from its own panel's signals and the
/// columns that date its reports.
pub proof fn a_flow_is_dated_by_its_reports(m: MarketView, signals: Term, name: Seq<char>)
    ensures
        ({
            let flow = annualized_of(m, signals, name);
            &&& flow.op == Op::Annualize
            &&& flow.inputs.len() == 4
            &&& flow.inputs[0] == signals
            &&& flow.inputs[1] == m.field(name)
            &&& flow.inputs[2].op == Op::Whole
            &&& flow.inputs[2].inputs == seq![m.field(first_segment(name) + ".report_year"@)]
            &&& flow.inputs[3].op == Op::Whole
            &&& flow.inputs[3].inputs == seq![
                m.field(first_segment(name) + ".report_day_of_year"@),
            ]
        }),
{
}

/// The parent's equity is capital, reserves and the parent's interests, which
/// are stored negative, as a positive number.
pub proof fn equity_has_three_parts(run: Run, m: MarketView, lane: int, now: int)
    requires
        known(run, m.field("balance_sheet.equity.capital"@), lane, now),
        known(run, m.field("balance_sheet.equity.reserves"@), lane, now),
        known(run, m.field("balance_sheet.equity.parent_interests"@), lane, now),
    ensures
        value(run, parent_equity_of(m), lane, now) == Some(
            -num(run, m.field("balance_sheet.equity.capital"@), lane, now) - num(
                run,
                m.field("balance_sheet.equity.reserves"@),
                lane,
                now,
            ) - num(run, m.field("balance_sheet.equity.parent_interests"@), lane, now),
        ),
{
    broadcast use group_values;

}

/// A normalized feature lies within five deviations, whatever the raw values
/// are.
pub proof fn a_normalized_feature_is_bounded(run: Run, x: Term, lane: int, now: int)
    requires
        known(run, normalized(x), lane, now),
    ensures
        -5real <= num(run, normalized(x), lane, now) <= 5real,
        ({
            let scored = normalized(x).inputs[0];
            let cut = scored.inputs[0];
            &&& scored.op == Op::Unary(Unary::StandardizeOrZero)
            &&& cut.op == Op::Unary(Unary::Winsorize(Double { bits: TAIL }))
            &&& cut.inputs == seq![x]
            &&& known(run, scored, lane, now)
            &&& -5real <= num(run, scored, lane, now) <= 5real ==> num(
                run,
                normalized(x),
                lane,
                now,
            ) == num(run, scored, lane, now)
        }),
{
    broadcast use group_values;

    five_is_told();
    let scored = unary(Unary::StandardizeOrZero, winsorized(x));
    assert(normalized(x).inputs[0] == scored);
    assert(scored.inputs[0] == winsorized(x));
    assert(winsorized(x).inputs =~= seq![x]);
}

proof fn five_is_told()
    ensures
        number(Double { bits: Z_LIMIT }) == 5real,
        number(Double { bits: MINUS_Z_LIMIT }) == -5real,
        (Double { bits: Z_LIMIT }).finite(),
        (Double { bits: MINUS_Z_LIMIT }).finite(),
{
    vstd::arithmetic::power2::lemma2_to64_rest();
    patterns_are_numbers(Double { bits: Z_LIMIT }, 1025, 0x4_0000_0000_0000, 50, 5);
    patterns_are_numbers(Double { bits: MINUS_Z_LIMIT }, 1025, 0x4_0000_0000_0000, 50, 5);
}

/// An imputed feature keeps every value that winsorizing at the tails leaves,
/// and fills a gap with the mean of those.
pub proof fn imputing_fills_with_the_mean(run: Run, x: Term, lane: int, now: int)
    ensures
        ({
            let cut = imputed(x).inputs[0];
            let kept = cross(run, cut, now);
            &&& cut.op == Op::Unary(Unary::Winsorize(Double { bits: TAIL }))
            &&& cut.inputs == seq![x]
            &&& known(run, cut, lane, now) ==> value(run, imputed(x), lane, now) == value(
                run,
                cut,
                lane,
                now,
            )
            &&& !known(run, cut, lane, now) && present(kept, run.lanes) > 0 ==> value(
                run,
                imputed(x),
                lane,
                now,
            ) == Some(mean(kept, run.lanes))
        }),
{
    broadcast use group_values;

    assert(imputed(x).inputs[0] == winsorized(x));
    assert(winsorized(x).inputs =~= seq![x]);
}

/// The tails that are winsorized are the closest number to one in a hundred.
pub proof fn the_tail_is_a_hundredth()
    ensures
        closest(Double { bits: TAIL }, 1, 100, 59),
{
    assert(0x3f84_7ae1_47ae_147bint % 0x10_0000_0000_0000 == 0x4_7ae1_47ae_147b);
    assert(0x3f84_7ae1_47ae_147bint / 0x10_0000_0000_0000 == 0x3f8);
    vstd::arithmetic::power2::lemma2_to64_rest();
}

} // verus!
