//! The CICC price-volume factors: momentum and reversal, volatility,
//! liquidity, price-volume correlation and chip distribution.
//!
//! Returns are log returns of the adjusted close. Windows are trading-day
//! counts on the daily clock: a month is 21 ticks, a year 252.
use vstd::prelude::*;

use crate::data::{MarketData, MarketView, all_in, named};
use crate::expr::{
    Context, ContextView, alike, alike_is_transitive, alike_readings, alike_when_all_lowered,
    alike_when_lowered, alike_with_field, beyond, beyond_is_transitive, extending_is_transitive,
    extends, keeps_place, lower_all, lowered_inside, lowering_extends, readings, with_all_lowered,
    with_lowered,
};
use crate::features::basic::turnover;
use crate::features::chip::CHIP_NAMES;
use crate::features::common::enlist;
use crate::features::formula::{
    call, group, minus, over, over2, put, quotient, spell_call, spell_group, spell_minus,
    spell_over, spell_over2, spell_quotient, spelled,
};
use crate::features::keys::{
    entries_stay, formula_keys, formulas_stand, hands_stand, inside_is_under, joined_stand, rising,
    stand, under,
};
use crate::graph::{
    Binary, Builder, Op, Term, Unary, Vector, Wire, binary, plain, t1, t2, terms, unary,
};
use crate::text::{decimal, decimal_text, replace, replace_all};
use crate::expr::{a_field_is_held, holds, names_apart, other_fields_are_held};
use crate::meaning::{Run, group_values, known, num, value};

verus! {

/// About one trading month, in ticks of the daily clock.
pub const M: usize = 21;

/// About one trading year, in ticks of the daily clock.
pub const Y: usize = 252;

/// The look-back of the chip distribution, in ticks of the daily clock.
pub const CHIP_WINDOW: usize = 250;

/// The log of the adjusted close.
pub const LOG_CLOSE: &'static str = "Log($close)";

/// The adjusted close-to-close log return.
pub const RET: &'static str = "Delta(Log($close), 1)";

/// The intraday log return.
pub const INTRA: &'static str = "(Log($close) - Log($open))";

/// The overnight log return.
pub const OVER: &'static str = "(Log($open) - Ref(Log($close), 1))";

/// The daily log return, with the days near the price limit masked to zero.
pub const MASKED: &'static str = "If(Abs(Delta(Log($close), 1)) < 0.095, Delta(Log($close), 1), 0)";

/// The daily amplitude.
pub const HIGHLOW: &'static str = "($high / $low)";

/// The change of turnover.
pub const TURND: &'static str = "Delta($turn, 1)";

/// The sum over the year less the sum over the last month.
pub open spec fn year_less_month(x: Seq<char>) -> Seq<char> {
    minus(over("Sum"@, x, Y as nat), over("Sum"@, x, M as nat))
}

/// The span return per unit of path over `d` ticks.
pub open spec fn route(d: nat) -> Seq<char> {
    quotient(over("Delta"@, LOG_CLOSE@, d), over("Sum"@, call("Abs"@, RET@), d))
}

/// The share of up days less the share of down days among the traded days of
/// `d` ticks.
pub open spec fn discrete(d: nat) -> Seq<char> {
    quotient(
        group(
            minus(
                over("Sum"@, call("If"@, RET@ + " > 0, 1, 0"@), d),
                over("Sum"@, call("If"@, RET@ + " < 0, 1, 0"@), d),
            ),
        ),
        over("Count"@, RET@, d),
    )
}

/// The momentum and reversal factors that are formulas. `_M` is the trailing
/// month, `_A` the trailing year.
pub open spec fn momentum_list() -> Seq<(Seq<char>, Seq<char>)> {
    seq![
        ("mmt_normal_M"@, over("Delta"@, LOG_CLOSE@, M as nat)),
        (
            "mmt_normal_A"@,
            minus(over("Ref"@, LOG_CLOSE@, M as nat), over("Ref"@, LOG_CLOSE@, Y as nat)),
        ),
        ("mmt_avg_M"@, "$close / Mean($close, 20)"@),
        (
            "mmt_avg_A"@,
            quotient(over("Ref"@, "$close"@, M as nat), over("Mean"@, "$close"@, Y as nat)),
        ),
        ("mmt_intraday_M"@, over("Sum"@, INTRA@, M as nat)),
        ("mmt_intraday_A"@, year_less_month(INTRA@)),
        ("mmt_overnight_M"@, over("Sum"@, OVER@, M as nat)),
        ("mmt_overnight_A"@, year_less_month(OVER@)),
        ("mmt_off_limit_M"@, over("Sum"@, MASKED@, M as nat)),
        ("mmt_off_limit_A"@, year_less_month(MASKED@)),
        ("mmt_route_M"@, route(M as nat)),
        ("mmt_route_A"@, route(Y as nat)),
        ("mmt_discrete_M"@, discrete(M as nat)),
        ("mmt_discrete_A"@, discrete(Y as nat)),
        ("mmt_sec_rank_M"@, over("Mean"@, call("CSRank"@, RET@), 20)),
        ("mmt_sec_rank_A"@, over("Mean"@, call("CSRank"@, RET@), Y as nat)),
        ("mmt_time_rank_M"@, over("Mean"@, over("Rank"@, LOG_CLOSE@, Y as nat), 20)),
        (
            "mmt_highest_days_A"@,
            minus(decimal(Y as nat), over("IdxMax"@, "$high"@, Y as nat)),
        ),
    ]
}

fn spell_year_less_month(x: &str) -> (r: String)
    ensures
        r@ == year_less_month(x@),
{
    spell_minus(spell_over("Sum", x, Y).as_str(), spell_over("Sum", x, M).as_str())
}

fn spell_route(d: usize) -> (r: String)
    ensures
        r@ == route(d as nat),
{
    let path = spell_over("Sum", spell_call("Abs", RET).as_str(), d);
    spell_quotient(spell_over("Delta", LOG_CLOSE, d).as_str(), path.as_str())
}

fn spell_discrete(d: usize) -> (r: String)
    ensures
        r@ == discrete(d as nat),
{
    let up = spell_call("If", RET.to_string().concat(" > 0, 1, 0").as_str());
    let down = spell_call("If", RET.to_string().concat(" < 0, 1, 0").as_str());
    let ups = spell_over("Sum", up.as_str(), d);
    let downs = spell_over("Sum", down.as_str(), d);
    let net = spell_group(spell_minus(ups.as_str(), downs.as_str()).as_str());
    spell_quotient(net.as_str(), spell_over("Count", RET, d).as_str())
}

/// The momentum and reversal factors that are formulas, as
/// `(name, expression)`.
pub fn momentum() -> (r: Vec<(String, String)>)
    ensures
        spelled(r@) == momentum_list(),
{
    let mut list: Vec<(String, String)> = Vec::new();
    assert(spelled(list@) =~= seq![]);
    put(&mut list, "mmt_normal_M", spell_over("Delta", LOG_CLOSE, M));
    let month_ago = spell_over("Ref", LOG_CLOSE, M);
    let year_ago = spell_over("Ref", LOG_CLOSE, Y);
    put(&mut list, "mmt_normal_A", spell_minus(month_ago.as_str(), year_ago.as_str()));
    put(&mut list, "mmt_avg_M", "$close / Mean($close, 20)".to_string());
    let close_ago = spell_over("Ref", "$close", M);
    let close_mean = spell_over("Mean", "$close", Y);
    put(&mut list, "mmt_avg_A", spell_quotient(close_ago.as_str(), close_mean.as_str()));
    put(&mut list, "mmt_intraday_M", spell_over("Sum", INTRA, M));
    put(&mut list, "mmt_intraday_A", spell_year_less_month(INTRA));
    put(&mut list, "mmt_overnight_M", spell_over("Sum", OVER, M));
    put(&mut list, "mmt_overnight_A", spell_year_less_month(OVER));
    put(&mut list, "mmt_off_limit_M", spell_over("Sum", MASKED, M));
    put(&mut list, "mmt_off_limit_A", spell_year_less_month(MASKED));
    put(&mut list, "mmt_route_M", spell_route(M));
    put(&mut list, "mmt_route_A", spell_route(Y));
    put(&mut list, "mmt_discrete_M", spell_discrete(M));
    put(&mut list, "mmt_discrete_A", spell_discrete(Y));
    let rank = spell_call("CSRank", RET);
    put(&mut list, "mmt_sec_rank_M", spell_over("Mean", rank.as_str(), 20));
    put(&mut list, "mmt_sec_rank_A", spell_over("Mean", rank.as_str(), Y));
    let time_rank = spell_over("Rank", LOG_CLOSE, Y);
    put(&mut list, "mmt_time_rank_M", spell_over("Mean", time_rank.as_str(), 20));
    let highest = spell_over("IdxMax", "$high", Y);
    put(
        &mut list,
        "mmt_highest_days_A",
        spell_minus(decimal_text(Y).as_str(), highest.as_str()),
    );
    list
}

/// The factors that come at several windows, volatility first and then
/// liquidity, as `(name prefix, expression template)`: `{d}` stands for the
/// tick count, `{ret}` for the daily return and `{hl}` for the amplitude.
pub const WINDOWED: [(&'static str, &'static str); 20] = [
    ("vol_std", "Std({ret}, {d})"),
    ("vol_down_std", "Std(Less({ret}, {ret} * 0), {d})"),
    ("vol_up_std", "Std(Greater({ret}, {ret} * 0), {d})"),
    ("vol_highlow_avg", "Mean({hl}, {d})"),
    ("vol_highlow_std", "Std({hl}, {d})"),
    ("vol_upshadow_avg", "Mean(($high - Greater($open, $close)) / $high, {d})"),
    ("vol_upshadow_std", "Std(($high - Greater($open, $close)) / $high, {d})"),
    ("vol_downshadow_avg", "Mean((Less($open, $close) - $low) / $low, {d})"),
    ("vol_downshadow_std", "Std((Less($open, $close) - $low) / $low, {d})"),
    ("vol_w_upshadow_avg", "Mean(($high - $close) / $high, {d})"),
    ("vol_w_upshadow_std", "Std(($high - $close) / $high, {d})"),
    ("vol_w_downshadow_avg", "Mean(($close - $low) / $low, {d})"),
    ("vol_w_downshadow_std", "Std(($close - $low) / $low, {d})"),
    ("liq_turn_avg", "Mean($turn, {d})"),
    ("liq_turn_std", "Std($turn, {d})"),
    ("liq_vstd", "CSRank(Sum($amount, {d}) / Std({ret}, {d}))"),
    ("liq_amihud_avg", "CSRank(Mean(Abs({ret}) / $amount, {d}))"),
    ("liq_amihud_std", "CSRank(Std(Abs({ret}) / $amount, {d}))"),
    ("liq_shortcut_avg", "CSRank(Mean($path / $amount, {d}))"),
    ("liq_shortcut_std", "CSRank(Std($path / $amount, {d}))"),
];

/// The windows of the [`WINDOWED`] factors: one, three and six months.
pub const TAGS: [(&'static str, usize); 3] = [("1M", M), ("3M", 63), ("6M", 126)];

/// A template with its placeholders filled in.
pub open spec fn filled(template: Seq<char>, d: nat) -> Seq<char> {
    replace_all(
        replace_all(replace_all(template, "{d}"@, decimal(d)), "{ret}"@, RET@),
        "{hl}"@,
        HIGHLOW@,
    )
}

/// The factor of family `i` at window `j`.
pub open spec fn windowed_entry(i: int, j: int) -> (Seq<char>, Seq<char>) {
    (
        WINDOWED@[i].0@ + "_"@ + TAGS@[j].0@,
        filled(WINDOWED@[i].1@, TAGS@[j].1 as nat),
    )
}

/// Every family at every window, family by family.
pub open spec fn windowed_list() -> Seq<(Seq<char>, Seq<char>)> {
    Seq::new(60, |k: int| windowed_entry(k / 3, k % 3))
}

fn fill(template: &str, d: usize) -> (r: String)
    ensures
        r@ == filled(template@, d as nat),
{
    proof {
        reveal_strlit("{d}");
        reveal_strlit("{ret}");
        reveal_strlit("{hl}");
    }
    let sized = replace(template, "{d}", decimal_text(d).as_str());
    let with_return = replace(sized.as_str(), "{ret}", RET);
    replace(with_return.as_str(), "{hl}", HIGHLOW)
}

/// Instantiates every [`WINDOWED`] family at its three windows.
pub fn windowed() -> (r: Vec<(String, String)>)
    ensures
        spelled(r@) == windowed_list(),
{
    let mut list: Vec<(String, String)> = Vec::new();
    let mut i: usize = 0;
    while i < WINDOWED.len()
        invariant
            i <= WINDOWED@.len(),
            list@.len() == 3 * i,
            forall|k: int| 0 <= k < 3 * i ==> #[trigger] spelled(list@)[k] == windowed_entry(
                k / 3,
                k % 3,
            ),
        decreases WINDOWED@.len() - i,
    {
        let family = WINDOWED[i];
        let mut j: usize = 0;
        while j < TAGS.len()
            invariant
                i < WINDOWED@.len(),
                j <= TAGS@.len(),
                family == WINDOWED@[i as int],
                list@.len() == 3 * i + j,
                forall|k: int| 0 <= k < 3 * i + j ==> #[trigger] spelled(list@)[k]
                    == windowed_entry(k / 3, k % 3),
            decreases TAGS@.len() - j,
        {
            let tag = TAGS[j];
            let name = family.0.to_string().concat("_").concat(tag.0);
            put(&mut list, name.as_str(), fill(family.1, tag.1));
            assert((3 * i + j) / 3 == i && (3 * i + j) % 3 == j);
            j += 1;
        }
        i += 1;
    }
    assert(spelled(list@) =~= windowed_list());
    list
}

/// The price-volume correlation factors: 20-day correlations of turnover and
/// of its change with price and return, in step, with the volume a day ahead
/// and with the price a day ahead.
pub open spec fn correlation_list() -> Seq<(Seq<char>, Seq<char>)> {
    seq![
        ("corr_price_turn_1M"@, over2("Corr"@, "$turn"@, "$close"@, 20)),
        (
            "corr_price_turn_post_1M"@,
            over2("Corr"@, over("Ref"@, "$turn"@, 1), "$close"@, 20),
        ),
        (
            "corr_price_turn_prior_1M"@,
            over2("Corr"@, "$turn"@, over("Ref"@, "$close"@, 1), 20),
        ),
        ("corr_ret_turn_1M"@, over2("Corr"@, "$turn"@, RET@, 20)),
        ("corr_ret_turn_post_1M"@, over2("Corr"@, over("Ref"@, "$turn"@, 1), RET@, 20)),
        ("corr_ret_turn_prior_1M"@, over2("Corr"@, "$turn"@, over("Ref"@, RET@, 1), 20)),
        ("corr_ret_turnd_1M"@, over2("Corr"@, TURND@, RET@, 20)),
        ("corr_ret_turnd_post_1M"@, over2("Corr"@, over("Ref"@, TURND@, 1), RET@, 20)),
        ("corr_ret_turnd_prior_1M"@, over2("Corr"@, TURND@, over("Ref"@, RET@, 1), 20)),
    ]
}

/// The price-volume correlation factors, as `(name, expression)`.
pub fn correlation() -> (r: Vec<(String, String)>)
    ensures
        spelled(r@) == correlation_list(),
{
    let mut list: Vec<(String, String)> = Vec::new();
    assert(spelled(list@) =~= seq![]);
    let turn = "$turn";
    let close = "$close";
    let turn_ago = spell_over("Ref", turn, 1);
    let close_ago = spell_over("Ref", close, 1);
    let ret_ago = spell_over("Ref", RET, 1);
    let turnd_ago = spell_over("Ref", TURND, 1);
    put(&mut list, "corr_price_turn_1M", spell_over2("Corr", turn, close, 20));
    put(
        &mut list,
        "corr_price_turn_post_1M",
        spell_over2("Corr", turn_ago.as_str(), close, 20),
    );
    put(
        &mut list,
        "corr_price_turn_prior_1M",
        spell_over2("Corr", turn, close_ago.as_str(), 20),
    );
    put(&mut list, "corr_ret_turn_1M", spell_over2("Corr", turn, RET, 20));
    put(&mut list, "corr_ret_turn_post_1M", spell_over2("Corr", turn_ago.as_str(), RET, 20));
    put(&mut list, "corr_ret_turn_prior_1M", spell_over2("Corr", turn, ret_ago.as_str(), 20));
    put(&mut list, "corr_ret_turnd_1M", spell_over2("Corr", TURND, RET, 20));
    put(&mut list, "corr_ret_turnd_post_1M", spell_over2("Corr", turnd_ago.as_str(), RET, 20));
    put(&mut list, "corr_ret_turnd_prior_1M", spell_over2("Corr", TURND, ret_ago.as_str(), 20));
    list
}

/// The factors that are formulas: momentum, the windowed families, then
/// correlation.
#[verifier::opaque]
pub open spec fn formula_list() -> Seq<(Seq<char>, Seq<char>)> {
    momentum_list() + windowed_list() + correlation_list()
}

fn formulas() -> (r: Vec<(String, String)>)
    ensures
        spelled(r@) == formula_list(),
{
    reveal(formula_list);
    let mut list = momentum();
    let mut second = windowed();
    let mut third = correlation();
    let ghost (x, y, z) = (list@, second@, third@);
    list.append(&mut second);
    list.append(&mut third);
    assert(spelled(list@) =~= spelled(x) + spelled(y) + spelled(z));
    list
}

/// The shortest path a day's price can have taken, in raw prices: twice the
/// range less the distance from open to close. It is divided by a raw amount,
/// so it is not spelled from the adjusted prices.
pub open spec fn shortest_path(m: MarketView) -> Term {
    let range = binary(Binary::Sub, m.high, m.low);
    binary(
        Binary::Sub,
        binary(Binary::Add, range, range),
        unary(Unary::Abs, binary(Binary::Sub, m.open, m.close)),
    )
}

/// The context with the fields that the catalog adds: `$turn`, `$amount` and
/// `$path`.
pub open spec fn volume_context(v: ContextView, m: MarketView) -> ContextView {
    v.with_field("turn"@, turnover(m)).with_field("amount"@, m.amount).with_field(
        "path"@,
        shortest_path(m),
    )
}

/// Range-adjusted momentum over `w` ticks.
pub open spec fn range_factor(v: ContextView, m: MarketView, w: usize) -> Term {
    t2(
        Op::RangeMomentum(w),
        m.daily,
        plain(Op::Stack, seq![v.reading(HIGHLOW@), v.reading(RET@)]),
    )
}

/// The chip distribution, one column per statistic.
pub open spec fn chip_panel(v: ContextView, m: MarketView) -> Term {
    t2(
        Op::ChipDistribution(CHIP_WINDOW),
        m.daily,
        plain(Op::Stack, seq![v.reading("$close"@), turnover(m)]),
    )
}

/// The statistics of the chip distribution.
pub open spec fn chip_list(v: ContextView, m: MarketView) -> Seq<(Seq<char>, Term)> {
    Seq::new(
        CHIP_NAMES@.len(),
        |c: int| (CHIP_NAMES@[c]@, t1(Op::Column(c as usize), chip_panel(v, m))),
    )
}

/// The whole catalog, over a context that has the volume fields.
pub open spec fn volume_catalog(v: ContextView, m: MarketView) -> Seq<(Seq<char>, Term)> {
    readings(v, formula_list()).push(("mmt_range_M"@, range_factor(v, m, M))).push(
        ("mmt_range_A"@, range_factor(v, m, Y)),
    ) + chip_list(v, m)
}

/// The keys of the range-adjusted momentum factors.
pub open spec fn range_keys() -> Seq<(Seq<char>, Option<Seq<char>>)> {
    seq![("mmt_range_M"@, None), ("mmt_range_A"@, None)]
}

/// The keys of the statistics of the chip distribution.
pub open spec fn chip_keys() -> Seq<(Seq<char>, Option<Seq<char>>)> {
    Seq::new(CHIP_NAMES@.len(), |c: int| (CHIP_NAMES@[c]@, None))
}

/// The keys of the whole catalog.
pub open spec fn volume_keys() -> Seq<(Seq<char>, Option<Seq<char>>)> {
    formula_keys(formula_list()) + range_keys() + chip_keys()
}

/// The context with the expressions of the catalog lowered.
pub open spec fn volume_lowered(v: ContextView) -> ContextView {
    with_lowered(
        with_lowered(with_lowered(with_all_lowered(v, formula_list()), HIGHLOW@), RET@),
        "$close"@,
    )
}

/// Registers the fields that the catalog adds, and gives the wire of
/// `$turn`.
fn add_volume_fields(b: &mut Builder, ctx: &mut Context, m: &MarketData) -> (r: Wire<Vector>)
    requires
        old(b).ordered(),
        m.belongs(*old(b)),
        old(ctx).belongs(*old(b)),
        m@.has_field("shares.circulating"@),
    ensures
        final(b).grown(*old(b)),
        final(ctx).belongs(*final(b)),
        final(b).has(r),
        r@ == turnover(m@),
        final(ctx)@ == volume_context(old(ctx)@, m@),
{
    let circulating = m.field("shares.circulating");
    let turn = b.binary(Binary::Div, m.volume, circulating);
    let hl = b.binary(Binary::Sub, m.high, m.low);
    let oc = b.binary(Binary::Sub, m.open, m.close);
    let abs_oc = b.unary(Unary::Abs, oc);
    let hl2 = b.binary(Binary::Add, hl, hl);
    let path = b.binary(Binary::Sub, hl2, abs_oc);
    assert(ctx.belongs(*b));
    ctx.add_field("turn", turn);
    assert(ctx.belongs(*b));
    ctx.add_field("amount", m.amount);
    assert(ctx.belongs(*b));
    ctx.add_field("path", path);
    assert(ctx.belongs(*b));
    turn
}

/// Adds the range-adjusted momentum factors.
fn add_range_factors(
    b: &mut Builder,
    ctx: &mut Context,
    m: &MarketData,
    entries: &mut Vec<(String, Wire<Vector>)>,
)
    requires
        old(b).ordered(),
        m.belongs(*old(b)),
        old(ctx).belongs(*old(b)),
        all_in(*old(b), old(entries)@),
    ensures
        final(b).grown(*old(b)),
        final(ctx).belongs(*final(b)),
        extends(final(ctx)@, old(ctx)@),
        alike(final(ctx)@, with_lowered(with_lowered(old(ctx)@, HIGHLOW@), RET@)),
        all_in(*final(b), final(entries)@),
        named(final(entries)@) == named(old(entries)@).push(
            ("mmt_range_M"@, range_factor(old(ctx)@, m@, M)),
        ).push(("mmt_range_A"@, range_factor(old(ctx)@, m@, Y))),
        beyond(final(ctx)@, old(ctx)@, old(b).nodes().len() as int),
        final(entries)@.take(old(entries)@.len() as int) == old(entries)@,
        stand(
            final(ctx)@,
            final(entries)@.skip(old(entries)@.len() as int),
            range_keys(),
        ),
        rising(final(entries)@, old(entries)@.len() as int, old(b).nodes().len() as int),
{
    let ghost v = ctx@;
    let amp = ctx.lower_str(b, HIGHLOW);
    let ghost v1 = ctx@;
    proof {
        lowering_extends(v, HIGHLOW@, amp.at());
        alike_when_lowered(v, v, HIGHLOW@, amp.at());
        assert(v1.reading(RET@) == v.reading(RET@));
    }
    let ret = ctx.lower_str(b, RET);
    proof {
        lowering_extends(v1, RET@, ret.at());
        alike_when_lowered(v1, with_lowered(v, HIGHLOW@), RET@, ret.at());
        extending_is_transitive(ctx@, v1, v);
    }
    let both: Vec<Wire<Vector>> = vec![amp, ret];
    assert(terms(both@) =~= seq![v.reading(HIGHLOW@), v.reading(RET@)]);
    let ghost low = b.nodes().len() as int;
    proof {
        lowered_inside(*ctx, *b);
    }
    let amp_ret = b.stack(&both);
    let month = b.range_momentum(M, m.daily, amp_ret);
    enlist(b, entries, "mmt_range_M", month);
    let year = b.range_momentum(Y, m.daily, amp_ret);
    enlist(b, entries, "mmt_range_A", year);
    proof {
        let n = old(entries)@.len() as int;
        let more = entries@.skip(n);
        assert(entries@.take(n) =~= old(entries)@);
        assert(named(entries@)[n].0 == entries@[n].0@);
        assert(named(entries@)[n + 1].0 == entries@[n + 1].0@);
        assert(more[0] == entries@[n] && more[1] == entries@[n + 1]);
        hands_stand(ctx@, more, range_keys(), low, b.nodes().len() as int);
    }
}

/// Adds the statistics of the chip distribution.
fn add_chip_factors(
    b: &mut Builder,
    ctx: &mut Context,
    m: &MarketData,
    turn: Wire<Vector>,
    entries: &mut Vec<(String, Wire<Vector>)>,
)
    requires
        old(b).ordered(),
        m.belongs(*old(b)),
        old(ctx).belongs(*old(b)),
        old(b).has(turn),
        turn@ == turnover(m@),
        all_in(*old(b), old(entries)@),
    ensures
        final(b).grown(*old(b)),
        final(ctx).belongs(*final(b)),
        extends(final(ctx)@, old(ctx)@),
        alike(final(ctx)@, with_lowered(old(ctx)@, "$close"@)),
        all_in(*final(b), final(entries)@),
        named(final(entries)@) == named(old(entries)@) + chip_list(old(ctx)@, m@),
        beyond(final(ctx)@, old(ctx)@, old(b).nodes().len() as int),
        final(entries)@.take(old(entries)@.len() as int) == old(entries)@,
        stand(
            final(ctx)@,
            final(entries)@.skip(old(entries)@.len() as int),
            chip_keys(),
        ),
        rising(final(entries)@, old(entries)@.len() as int, old(b).nodes().len() as int),
{
    let ghost v = ctx@;
    let close = ctx.lower_str(b, "$close");
    proof {
        lowering_extends(v, "$close"@, close.at());
        alike_when_lowered(v, v, "$close"@, close.at());
    }
    let both: Vec<Wire<Vector>> = vec![close, turn];
    assert(terms(both@) =~= seq![v.reading("$close"@), turnover(m@)]);
    let ghost low = b.nodes().len() as int;
    proof {
        lowered_inside(*ctx, *b);
    }
    let ghost lowered = ctx@;
    let ghost n = entries@.len() as int;
    let chip_in = b.stack(&both);
    let chip = b.chip_distribution(CHIP_WINDOW, m.daily, chip_in);
    let mut c: usize = 0;
    assert(named(entries@) + chip_list(v, m@).take(0) =~= named(entries@));
    assert(entries@.take(n) =~= old(entries)@);
    while c < CHIP_NAMES.len()
        invariant
            c <= CHIP_NAMES@.len(),
            v == old(ctx)@,
            b.grown(*old(b)),
            ctx.belongs(*b),
            extends(ctx@, v),
            alike(ctx@, with_lowered(v, "$close"@)),
            b.has(chip),
            chip@ == chip_panel(v, m@),
            all_in(*b, entries@),
            named(entries@) == named(old(entries)@) + chip_list(v, m@).take(c as int),
            ctx@ == lowered,
            n == old(entries)@.len(),
            entries@.len() == n + c,
            entries@.take(n) == old(entries)@,
            low <= b.nodes().len(),
            rising(entries@, n, low),
            forall|i: int|
                n <= i < entries@.len() ==> (#[trigger] entries@[i]).1.at() < b.nodes().len(),
        decreases CHIP_NAMES@.len() - c,
    {
        let ghost so_far = entries@;
        let h = b.column(c, chip);
        enlist(b, entries, CHIP_NAMES[c], h);
        assert(entries@.take(n) =~= so_far.take(n));
        assert(named(entries@) =~= named(old(entries)@) + chip_list(v, m@).take(c + 1));
        c += 1;
    }
    assert(chip_list(v, m@).take(c as int) =~= chip_list(v, m@));
    proof {
        let more = entries@.skip(n);
        assert forall|i: int| 0 <= i < more.len() implies (#[trigger] more[i]).0@
            == chip_keys()[i].0 && chip_keys()[i].1 is None by {
            assert(more[i] == entries@[n + i]);
            assert(named(entries@)[n + i].0 == entries@[n + i].0@);
        }
        assert(rising(more, 0, low)) by {
            assert forall|i: int| 0 <= i < more.len() implies low <= (
            #[trigger] more[i]).1.at() by {
                assert(more[i] == entries@[n + i]);
            }
            assert forall|i: int, j: int|
                #![trigger more[i], more[j]]
                0 <= i < j < more.len() implies more[i].1.at() < more[j].1.at() by {
                assert(more[i] == entries@[n + i] && more[j] == entries@[n + j]);
            }
        }
        assert(under(more, b.nodes().len() as int)) by {
            assert forall|i: int| 0 <= i < more.len() implies (#[trigger] more[i]).1.at()
                < b.nodes().len() by {
                assert(more[i] == entries@[n + i]);
            }
        }
        hands_stand(ctx@, more, chip_keys(), low, b.nodes().len() as int);
    }
}

/// Lowers the whole price-volume catalog through `ctx`, one
/// `(name, raw value)` entry per factor, after registering the fields it
/// adds.
pub fn build_features_cicc_pv(b: &mut Builder, ctx: &mut Context, m: &MarketData) -> (r: Vec<
    (String, Wire<Vector>),
>)
    requires
        old(b).ordered(),
        m.belongs(*old(b)),
        old(ctx).belongs(*old(b)),
        m@.has_field("shares.circulating"@),
    ensures
        final(b).grown(*old(b)),
        final(ctx).belongs(*final(b)),
        extends(final(ctx)@, volume_context(old(ctx)@, m@)),
        alike(final(ctx)@, volume_lowered(volume_context(old(ctx)@, m@))),
        all_in(*final(b), r@),
        named(r@) == volume_catalog(volume_context(old(ctx)@, m@), m@),
        forall|s: Seq<char>| #[trigger] keeps_place(final(ctx)@, old(ctx)@, s),
        beyond(final(ctx)@, old(ctx)@, old(b).nodes().len() as int),
        stand(final(ctx)@, r@, volume_keys()),
        forall|i: int|
            0 <= i < r@.len() && volume_keys()[i].1 is None ==> old(b).nodes().len() <= (
            #[trigger] r@[i]).1.at(),
{
    let turn = add_volume_fields(b, ctx, m);
    let ghost v = ctx@;
    let list = formulas();
    let ghost n0 = b.nodes().len() as int;
    let mut entries = lower_all(ctx, b, &list);
    let ghost v1 = ctx@;
    let ghost e1 = entries@;
    let ghost n1 = b.nodes().len() as int;
    proof {
        assert forall|i: int| 0 <= i < e1.len() implies (#[trigger] e1[i]).0@
            == formula_list()[i].0 by {
            assert(named(e1)[i].0 == e1[i].0@);
        }
        formulas_stand(v1, e1, formula_list());
        inside_is_under(*b, e1);
    }
    assert(v1.reading(HIGHLOW@) == v.reading(HIGHLOW@));
    assert(v1.reading(RET@) == v.reading(RET@));
    add_range_factors(b, ctx, m, &mut entries);
    let ghost v2 = ctx@;
    let ghost e2 = entries@;
    let ghost n2 = b.nodes().len() as int;
    let ghost k1 = formula_keys(formula_list());
    let ghost k2 = k1 + range_keys();
    proof {
        assert(named(e2).len() == e2.len() && named(e1).len() == e1.len());
        let more = e2.skip(e1.len() as int);
        entries_stay(v2, v1, e1, k1, n1);
        assert forall|i: int| 0 <= i < more.len() implies n1 <= (#[trigger] more[i]).1.at() by {
            assert(more[i] == e2[e1.len() + i]);
        }
        joined_stand(v2, e1, k1, more, range_keys(), n1);
        assert(e2 =~= e1 + more);
        inside_is_under(*b, e2);
    }
    assert(v2.reading("$close"@) == v1.reading("$close"@));
    assert(v1.reading("$close"@) == v.reading("$close"@));
    add_chip_factors(b, ctx, m, turn, &mut entries);
    proof {
        assert(named(entries@).len() == entries@.len() && named(e2).len() == e2.len());
        let more = entries@.skip(e2.len() as int);
        entries_stay(ctx@, v2, e2, k2, n2);
        assert forall|i: int| 0 <= i < more.len() implies n2 <= (#[trigger] more[i]).1.at() by {
            assert(more[i] == entries@[e2.len() + i]);
        }
        joined_stand(ctx@, e2, k2, more, chip_keys(), n2);
        assert(entries@ =~= e2 + more);
        beyond_is_transitive(v2, v1, v, n1, n0);
        beyond_is_transitive(ctx@, v2, v, n2, n0);
        assert forall|i: int|
            0 <= i < entries@.len() && volume_keys()[i].1 is None implies n0 <= (
        #[trigger] entries@[i]).1.at() by {
            if i < e1.len() {
                assert(k1[i].1 is Some);
            } else if i < e2.len() {
                assert(entries@[i] == e2[i]);
            }
        }
    }
    proof {
        extending_is_transitive(v2, v1, v);
        extending_is_transitive(ctx@, v2, v);
        let w1 = with_all_lowered(v, formula_list());
        let w2 = with_lowered(with_lowered(w1, HIGHLOW@), RET@);
        alike_when_lowered(v1, w1, HIGHLOW@, 0);
        alike_when_lowered(with_lowered(v1, HIGHLOW@), with_lowered(w1, HIGHLOW@), RET@, 0);
        alike_is_transitive(v2, with_lowered(with_lowered(v1, HIGHLOW@), RET@), w2);
        alike_when_lowered(v2, w2, "$close"@, 0);
        alike_is_transitive(ctx@, with_lowered(v2, "$close"@), volume_lowered(v));
        assert(v.lowered == old(ctx)@.lowered);
        assert forall|s: Seq<char>| #[trigger] keeps_place(ctx@, old(ctx)@, s) by {
            assert(keeps_place(ctx@, v, s));
        }
    }
    assert(chip_list(v2, m@) =~= chip_list(v, m@));
    entries
}

/// Contexts that are alike give the same catalog, and stay alike.
pub(crate) proof fn volume_of_alike(a: ContextView, v: ContextView, m: MarketView)
    requires
        alike(a, v),
    ensures
        volume_catalog(volume_context(a, m), m) == volume_catalog(volume_context(v, m), m),
        alike(volume_lowered(volume_context(a, m)), volume_lowered(volume_context(v, m))),
{
    alike_with_field(a, v, "turn"@, turnover(m));
    let (a1, v1) = (a.with_field("turn"@, turnover(m)), v.with_field("turn"@, turnover(m)));
    alike_with_field(a1, v1, "amount"@, m.amount);
    let (a2, v2) = (a1.with_field("amount"@, m.amount), v1.with_field("amount"@, m.amount));
    alike_with_field(a2, v2, "path"@, shortest_path(m));
    let x = volume_context(a, m);
    let y = volume_context(v, m);
    assert(alike(x, y));
    assert(x.reading(HIGHLOW@) == y.reading(HIGHLOW@));
    assert(x.reading(RET@) == y.reading(RET@));
    assert(x.reading("$close"@) == y.reading("$close"@));
    alike_readings(x, y, formula_list());
    assert(chip_list(x, m) =~= chip_list(y, m));
    alike_when_all_lowered(x, y, formula_list());
    let (x1, y1) = (with_all_lowered(x, formula_list()), with_all_lowered(y, formula_list()));
    alike_when_lowered(x1, y1, HIGHLOW@, 0);
    let (x2, y2) = (with_lowered(x1, HIGHLOW@), with_lowered(y1, HIGHLOW@));
    alike_when_lowered(x2, y2, RET@, 0);
    alike_when_lowered(with_lowered(x2, RET@), with_lowered(y2, RET@), "$close"@, 0);
}

/// The shortest path of a day runs from open to close by way of both
/// extremes: it is as long as the shorter of going up first and of going down
/// first.
pub proof fn the_path_meets_both_extremes(run: Run, m: MarketView, lane: int, now: int)
    requires
        known(run, m.open, lane, now),
        known(run, m.high, lane, now),
        known(run, m.low, lane, now),
        known(run, m.close, lane, now),
    ensures
        ({
            let open = num(run, m.open, lane, now);
            let high = num(run, m.high, lane, now);
            let low = num(run, m.low, lane, now);
            let close = num(run, m.close, lane, now);
            let up_first = (high - open) + (high - low) + (close - low);
            let down_first = (open - low) + (high - low) + (high - close);
            value(run, shortest_path(m), lane, now) == Some(
                if up_first <= down_first {
                    up_first
                } else {
                    down_first
                },
            )
        }),
{
    broadcast use group_values;

}

/// The formulas read the turnover as `$turn`, the raw amount as `$amount` and
/// the shortest path as `$path`.
pub proof fn the_volume_fields_are_held(v: ContextView, m: MarketView)
    requires
        names_apart(v),
    ensures
        holds(volume_context(v, m), "turn"@, turnover(m)),
        holds(volume_context(v, m), "amount"@, m.amount),
        holds(volume_context(v, m), "path"@, shortest_path(m)),
{
    reveal_strlit("turn");
    reveal_strlit("amount");
    reveal_strlit("path");
    assert("turn"@.len() == 4 && "amount"@.len() == 6 && "path"@.len() == 4);
    assert("turn"@[0] == 't' && "path"@[0] == 'p');
    let one = v.with_field("turn"@, turnover(m));
    let two = one.with_field("amount"@, m.amount);
    a_field_is_held(v, "turn"@, turnover(m));
    a_field_is_held(one, "amount"@, m.amount);
    other_fields_are_held(one, "amount"@, m.amount, "turn"@, turnover(m));
    a_field_is_held(two, "path"@, shortest_path(m));
    other_fields_are_held(two, "path"@, shortest_path(m), "turn"@, turnover(m));
    other_fields_are_held(two, "path"@, shortest_path(m), "amount"@, m.amount);
}

/// Range-adjusted momentum sets the amplitude, high over low, beside the
/// daily log return, over a month and over a year; the chip distribution sets
/// the adjusted close beside the turnover.
pub proof fn the_panels_have_their_columns(v: ContextView, m: MarketView)
    ensures
        ({
            let list = volume_catalog(v, m);
            let month = list[87].1;
            let year = list[88].1;
            &&& list[87].0 == "mmt_range_M"@
            &&& month.op == Op::RangeMomentum(21)
            &&& month.inputs[0] == m.daily
            &&& month.inputs[1].op == Op::Stack
            &&& month.inputs[1].inputs == seq![
                v.reading("($high / $low)"@),
                v.reading("Delta(Log($close), 1)"@),
            ]
            &&& list[88].0 == "mmt_range_A"@
            &&& year.op == Op::RangeMomentum(252)
            &&& year.inputs == month.inputs
            &&& chip_panel(v, m).op == Op::ChipDistribution(250)
            &&& chip_panel(v, m).inputs[0] == m.daily
            &&& chip_panel(v, m).inputs[1].op == Op::Stack
            &&& chip_panel(v, m).inputs[1].inputs == seq![v.reading("$close"@), turnover(m)]
            &&& forall|c: int|
                0 <= c < CHIP_NAMES@.len() ==> (#[trigger] list[89 + c]).0 == CHIP_NAMES@[c]@
                    && list[89 + c].1 == t1(Op::Column(c as usize), chip_panel(v, m))
        }),
{
    reveal(formula_list);
    assert(momentum_list().len() == 18 && windowed_list().len() == 60 && correlation_list().len()
        == 9);
    let list = volume_catalog(v, m);
    assert(readings(v, formula_list()).len() == 87);
    assert forall|c: int| 0 <= c < CHIP_NAMES@.len() implies (#[trigger] list[89 + c]).0
        == CHIP_NAMES@[c]@ && list[89 + c].1 == t1(Op::Column(c as usize), chip_panel(v, m)) by {
        assert(list[89 + c] == chip_list(v, m)[c]);
    }
    let month = range_factor(v, m, M);
    assert(list[87].1 == month);
    assert(list[88].1 == range_factor(v, m, Y));
}

} // verus!
