//! The Qlib Alpha158 catalog: 9 K-line shape features, 4 price ratios and 29
//! rolling families at five windows, 158 features in all.
//!
//! Up and down days are counted over the days a stock traded, and a day
//! without a quote adds nothing to a sum of gains or losses.
use vstd::prelude::*;

use crate::data::{all_in, named};
use crate::expr::{
    Context, alike, beyond, extends, lower_all, placed, readings, with_all_lowered,
};
use crate::features::formula::{put, spelled};
use crate::graph::{Builder, Vector, Wire};
use crate::text::{decimal, decimal_text, replace, replace_all};

verus! {

/// The window lengths, in trading days, of the [`ROLLING`] families.
pub const WINDOWS: [usize; 5] = [5, 10, 20, 30, 60];

/// The K-line shape features, as `(name, expression)`: where the close sits
/// inside the day's bar. The `1e-12` guards against a bar without range.
pub const KBAR: [(&'static str, &'static str); 9] = [
    ("KMID", "($close - $open) / $open"),
    ("KLEN", "($high - $low) / $open"),
    ("KMID2", "($close - $open) / ($high - $low + 1e-12)"),
    ("KUP", "($high - Greater($open, $close)) / $open"),
    ("KUP2", "($high - Greater($open, $close)) / ($high - $low + 1e-12)"),
    ("KLOW", "(Less($open, $close) - $low) / $open"),
    ("KLOW2", "(Less($open, $close) - $low) / ($high - $low + 1e-12)"),
    ("KSFT", "(2 * $close - $high - $low) / $open"),
    ("KSFT2", "(2 * $close - $high - $low) / ($high - $low + 1e-12)"),
];

/// The price features, as `(name, expression)`: each of the day's other
/// prices divided by the close.
pub const PRICE: [(&'static str, &'static str); 4] = [
    ("OPEN0", "$open / $close"),
    ("HIGH0", "$high / $close"),
    ("LOW0", "$low / $close"),
    ("VWAP0", "$vwap / $close"),
];

/// The rolling families, as `(name prefix, expression template)`: `{d}` is
/// the window, which is also appended to the prefix.
pub const ROLLING: [(&'static str, &'static str); 29] = [
    // Where the close sits relative to its own recent past.
    ("ROC", "Ref($close, {d}) / $close"),
    ("MA", "Mean($close, {d}) / $close"),
    ("STD", "Std($close, {d}) / $close"),
    ("BETA", "Slope($close, {d}) / $close"),
    ("RSQR", "Rsquare($close, {d})"),
    ("RESI", "Resi($close, {d}) / $close"),
    // The price level within the window's range.
    ("MAX", "Max($high, {d}) / $close"),
    ("MIN", "Min($low, {d}) / $close"),
    ("QTLU", "Quantile($close, {d}, 0.8) / $close"),
    ("QTLD", "Quantile($close, {d}, 0.2) / $close"),
    ("RANK", "Rank($close, {d})"),
    ("RSV", "($close - Min($low, {d})) / (Max($high, {d}) - Min($low, {d}) + 1e-12)"),
    // How recently the extremes were set.
    ("IMAX", "IdxMax($high, {d}) / {d}"),
    ("IMIN", "IdxMin($low, {d}) / {d}"),
    ("IMXD", "(IdxMax($high, {d}) - IdxMin($low, {d})) / {d}"),
    // Price and volume moving together.
    ("CORR", "Corr($close, Log($volume + 1), {d})"),
    ("CORD", "Corr($close / Ref($close, 1), Log($volume / Ref($volume, 1) + 1), {d})"),
    // Counts of up and down days.
    (
        "CNTP",
        "Sum(If($close > Ref($close, 1), 1, 0), {d}) / Count($close - Ref($close, 1), {d})",
    ),
    (
        "CNTN",
        "Sum(If($close < Ref($close, 1), 1, 0), {d}) / Count($close - Ref($close, 1), {d})",
    ),
    (
        "CNTD",
        "(Sum(If($close > Ref($close, 1), 1, 0), {d}) - Sum(If($close < Ref($close, 1), 1, 0), {d})) / Count($close - Ref($close, 1), {d})",
    ),
    // Gains and losses of the close.
    (
        "SUMP",
        "Sum(Greater($close - Ref($close, 1), 0), {d}) / (Sum(Abs($close - Ref($close, 1)), {d}) + 1e-12)",
    ),
    (
        "SUMN",
        "Sum(Greater(Ref($close, 1) - $close, 0), {d}) / (Sum(Abs($close - Ref($close, 1)), {d}) + 1e-12)",
    ),
    (
        "SUMD",
        "(Sum(Greater($close - Ref($close, 1), 0), {d}) - Sum(Greater(Ref($close, 1) - $close, 0), {d})) / (Sum(Abs($close - Ref($close, 1)), {d}) + 1e-12)",
    ),
    // The level and the dispersion of volume, and volume-weighted volatility.
    ("VMA", "Mean($volume, {d}) / ($volume + 1e-12)"),
    ("VSTD", "Std($volume, {d}) / ($volume + 1e-12)"),
    (
        "WVMA",
        "Std(Abs($close / Ref($close, 1) - 1) * $volume, {d}) / (Mean(Abs($close / Ref($close, 1) - 1) * $volume, {d}) + 1e-12)",
    ),
    // Gains and losses of volume.
    (
        "VSUMP",
        "Sum(Greater($volume - Ref($volume, 1), 0), {d}) / (Sum(Abs($volume - Ref($volume, 1)), {d}) + 1e-12)",
    ),
    (
        "VSUMN",
        "Sum(Greater(Ref($volume, 1) - $volume, 0), {d}) / (Sum(Abs($volume - Ref($volume, 1)), {d}) + 1e-12)",
    ),
    (
        "VSUMD",
        "(Sum(Greater($volume - Ref($volume, 1), 0), {d}) - Sum(Greater(Ref($volume, 1) - $volume, 0), {d})) / (Sum(Abs($volume - Ref($volume, 1)), {d}) + 1e-12)",
    ),
];

/// The feature of rolling family `i` at window `j`.
pub open spec fn rolling_feature(i: int, j: int) -> (Seq<char>, Seq<char>) {
    (
        ROLLING@[i].0@ + decimal(WINDOWS@[j] as nat),
        replace_all(ROLLING@[i].1@, "{d}"@, decimal(WINDOWS@[j] as nat)),
    )
}

/// Feature `k` of the catalog: the K-line shapes, the prices, then every
/// rolling family at every window, family by family.
pub open spec fn alpha158_feature(k: int) -> (Seq<char>, Seq<char>) {
    if k < 9 {
        (KBAR@[k].0@, KBAR@[k].1@)
    } else if k < 13 {
        (PRICE@[k - 9].0@, PRICE@[k - 9].1@)
    } else {
        rolling_feature((k - 13) / 5, (k - 13) % 5)
    }
}

/// The 158 features, as `(name, expression)`.
pub open spec fn alpha158_list() -> Seq<(Seq<char>, Seq<char>)> {
    Seq::new(158, |k: int| alpha158_feature(k))
}

/// The 158 features, as `(name, expression)`.
pub fn formulas() -> (r: Vec<(String, String)>)
    ensures
        spelled(r@) == alpha158_list(),
{
    proof {
        reveal_strlit("{d}");
    }
    let mut list: Vec<(String, String)> = Vec::new();
    let mut i: usize = 0;
    while i < KBAR.len()
        invariant
            i <= KBAR@.len(),
            list@.len() == i,
            forall|k: int| 0 <= k < i ==> #[trigger] spelled(list@)[k] == alpha158_feature(k),
        decreases KBAR@.len() - i,
    {
        put(&mut list, KBAR[i].0, KBAR[i].1.to_string());
        i += 1;
    }
    let mut i: usize = 0;
    while i < PRICE.len()
        invariant
            i <= PRICE@.len(),
            list@.len() == 9 + i,
            forall|k: int| 0 <= k < 9 + i ==> #[trigger] spelled(list@)[k] == alpha158_feature(k),
        decreases PRICE@.len() - i,
    {
        put(&mut list, PRICE[i].0, PRICE[i].1.to_string());
        i += 1;
    }
    let mut i: usize = 0;
    while i < ROLLING.len()
        invariant
            "{d}"@.len() > 0,
            i <= ROLLING@.len(),
            list@.len() == 13 + 5 * i,
            forall|k: int|
                0 <= k < 13 + 5 * i ==> #[trigger] spelled(list@)[k] == alpha158_feature(k),
        decreases ROLLING@.len() - i,
    {
        let family = ROLLING[i];
        let mut j: usize = 0;
        while j < WINDOWS.len()
            invariant
                "{d}"@.len() > 0,
                i < ROLLING@.len(),
                j <= WINDOWS@.len(),
                family == ROLLING@[i as int],
                list@.len() == 13 + 5 * i + j,
                forall|k: int|
                    0 <= k < 13 + 5 * i + j ==> #[trigger] spelled(list@)[k] == alpha158_feature(
                        k,
                    ),
            decreases WINDOWS@.len() - j,
        {
            let d = decimal_text(WINDOWS[j]);
            let name = family.0.to_string().concat(d.as_str());
            put(&mut list, name.as_str(), replace(family.1, "{d}", d.as_str()));
            assert((5 * i + j) / 5 == i && (5 * i + j) % 5 == j);
            j += 1;
        }
        i += 1;
    }
    assert(spelled(list@) =~= alpha158_list());
    list
}

/// Lowers the whole Alpha158 catalog through `ctx`, one `(name, raw value)`
/// entry per feature. Features share the subexpressions of any other factor
/// lowered through the same context.
pub fn build_features_alpha158(b: &mut Builder, ctx: &mut Context) -> (r: Vec<
    (String, Wire<Vector>),
>)
    requires
        old(b).ordered(),
        old(ctx).belongs(*old(b)),
    ensures
        final(b).grown(*old(b)),
        final(ctx).belongs(*final(b)),
        extends(final(ctx)@, old(ctx)@),
        alike(final(ctx)@, with_all_lowered(old(ctx)@, alpha158_list())),
        all_in(*final(b), r@),
        named(r@) == readings(old(ctx)@, alpha158_list()),
        placed(final(ctx)@, alpha158_list(), r@),
        beyond(final(ctx)@, old(ctx)@, old(b).nodes().len() as int),
{
    let list = formulas();
    lower_all(ctx, b, &list)
}

} // verus!
