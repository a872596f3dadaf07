//! The Qlib Alpha360 catalog: the last 60 trading days of each of six daily
//! series, the prices normalized by today's close and the volume by today's
//! volume. One series at a time, oldest lag first.
//!
//! Lag zero is spelled without a `Ref`, so that it shares its wire with the
//! same price of the Alpha158 catalog.
use vstd::prelude::*;

use crate::data::{all_in, named};
use crate::expr::{
    Context, alike, beyond, extends, lower_all, placed, readings, with_all_lowered,
};
use crate::features::alpha158::{
    KBAR, ROLLING, alpha158_feature, alpha158_list, rolling_feature,
};
use crate::features::formula::{put, spelled};
use crate::graph::{Builder, Vector, Wire};
use crate::text::{decimal, decimal_text, digit, replace, replace_all};

verus! {

/// The number of trailing trading days, today included.
pub const LAGS: usize = 60;

/// The daily series, as `(name prefix, lagged expression, today's
/// expression)`: `{d}` is the lag in trading days, which is also appended to
/// the prefix.
pub const SERIES: [(&'static str, &'static str, &'static str); 6] = [
    ("CLOSE", "Ref($close, {d}) / $close", "$close / $close"),
    ("OPEN", "Ref($open, {d}) / $close", "$open / $close"),
    ("HIGH", "Ref($high, {d}) / $close", "$high / $close"),
    ("LOW", "Ref($low, {d}) / $close", "$low / $close"),
    ("VWAP", "Ref($vwap, {d}) / $close", "$vwap / $close"),
    ("VOLUME", "Ref($volume, {d}) / ($volume + 1e-12)", "$volume / ($volume + 1e-12)"),
];

/// Series `i` at a lag of `d` days.
pub open spec fn lagged(i: int, d: int) -> (Seq<char>, Seq<char>) {
    (
        SERIES@[i].0@ + decimal(d as nat),
        if d == 0 {
            SERIES@[i].2@
        } else {
            replace_all(SERIES@[i].1@, "{d}"@, decimal(d as nat))
        },
    )
}

/// The 360 features, as `(name, expression)`.
pub open spec fn alpha360_list() -> Seq<(Seq<char>, Seq<char>)> {
    Seq::new(360, |k: int| lagged(k / 60, 59 - k % 60))
}

/// The 360 features, as `(name, expression)`.
pub fn formulas() -> (r: Vec<(String, String)>)
    ensures
        spelled(r@) == alpha360_list(),
{
    proof {
        reveal_strlit("{d}");
    }
    let mut list: Vec<(String, String)> = Vec::new();
    let mut i: usize = 0;
    while i < SERIES.len()
        invariant
            "{d}"@.len() > 0,
            i <= SERIES@.len(),
            list@.len() == 60 * i,
            forall|k: int|
                0 <= k < 60 * i ==> #[trigger] spelled(list@)[k] == lagged(k / 60, 59 - k % 60),
        decreases SERIES@.len() - i,
    {
        let series = SERIES[i];
        let mut j: usize = 0;
        while j < LAGS
            invariant
                "{d}"@.len() > 0,
                i < SERIES@.len(),
                j <= LAGS,
                series == SERIES@[i as int],
                list@.len() == 60 * i + j,
                forall|k: int|
                    0 <= k < 60 * i + j ==> #[trigger] spelled(list@)[k] == lagged(
                        k / 60,
                        59 - k % 60,
                    ),
            decreases LAGS - j,
        {
            let d: usize = LAGS - 1 - j;
            let lag = decimal_text(d);
            let source = if d == 0 {
                series.2.to_string()
            } else {
                replace(series.1, "{d}", lag.as_str())
            };
            let name = series.0.to_string().concat(lag.as_str());
            put(&mut list, name.as_str(), source);
            assert((60 * i + j) / 60 == i && (60 * i + j) % 60 == j);
            j += 1;
        }
        i += 1;
    }
    assert(spelled(list@) =~= alpha360_list());
    list
}

/// Lowers the whole Alpha360 catalog through `ctx`, one `(name, raw value)`
/// entry per feature. The most expensive catalog to run: the lags do not
/// nest, so each of the 354 non-zero ones buffers its own window.
pub fn build_features_alpha360(b: &mut Builder, ctx: &mut Context) -> (r: Vec<
    (String, Wire<Vector>),
>)
    requires
        old(b).ordered(),
        old(ctx).belongs(*old(b)),
    ensures
        final(b).grown(*old(b)),
        final(ctx).belongs(*final(b)),
        extends(final(ctx)@, old(ctx)@),
        alike(final(ctx)@, with_all_lowered(old(ctx)@, alpha360_list())),
        all_in(*final(b), r@),
        named(r@) == readings(old(ctx)@, alpha360_list()),
        placed(final(ctx)@, alpha360_list(), r@),
        beyond(final(ctx)@, old(ctx)@, old(b).nodes().len() as int),
{
    let list = formulas();
    lower_all(ctx, b, &list)
}

/// The open, high, low and average price of today have the same name and the
/// same formula in Alpha158 and here.
pub proof fn todays_prices_are_shared()
    ensures
        alpha360_list()[119] == alpha158_list()[9],
        alpha360_list()[179] == alpha158_list()[10],
        alpha360_list()[239] == alpha158_list()[11],
        alpha360_list()[299] == alpha158_list()[12],
{
    reveal_strlit("OPEN");
    reveal_strlit("HIGH");
    reveal_strlit("LOW");
    reveal_strlit("VWAP");
    reveal_strlit("OPEN0");
    reveal_strlit("HIGH0");
    reveal_strlit("LOW0");
    reveal_strlit("VWAP0");
    assert(decimal(0) =~= seq!['0']) by {
        assert(digit(0) == '0');
    }
    assert("OPEN"@ + decimal(0) =~= "OPEN0"@);
    assert("HIGH"@ + decimal(0) =~= "HIGH0"@);
    assert("LOW"@ + decimal(0) =~= "LOW0"@);
    assert("VWAP"@ + decimal(0) =~= "VWAP0"@);
    assert(lagged(1, 0) == alpha158_feature(9));
    assert(lagged(2, 0) == alpha158_feature(10));
    assert(lagged(3, 0) == alpha158_feature(11));
    assert(lagged(4, 0) == alpha158_feature(12));
}

/// Whether a name starts with these two characters.
spec fn opens(name: Seq<char>, first: char, second: char) -> bool {
    name.len() >= 2 && name[0] == first && name[1] == second
}

/// Whether a name starts like a series of this catalog.
spec fn opens_like_a_series(name: Seq<char>) -> bool {
    ||| opens(name, 'C', 'L')
    ||| opens(name, 'O', 'P')
    ||| opens(name, 'H', 'I')
    ||| opens(name, 'L', 'O')
    ||| opens(name, 'V', 'W')
    ||| opens(name, 'V', 'O')
}

proof fn series_open(i: int)
    requires
        0 <= i < 6,
    ensures
        opens_like_a_series(SERIES@[i].0@),
        opens(SERIES@[i].0@, 'O', 'P') ==> i == 1,
        opens(SERIES@[i].0@, 'H', 'I') ==> i == 2,
        opens(SERIES@[i].0@, 'L', 'O') ==> i == 3,
        opens(SERIES@[i].0@, 'V', 'W') ==> i == 4,
{
    reveal_strlit("CLOSE");
    reveal_strlit("OPEN");
    reveal_strlit("HIGH");
    reveal_strlit("LOW");
    reveal_strlit("VWAP");
    reveal_strlit("VOLUME");
}

proof fn families_open_otherwise(i: int)
    requires
        0 <= i < 29,
    ensures
        ROLLING@[i].0@.len() >= 2,
        !opens_like_a_series(ROLLING@[i].0@),
{
    reveal_strlit("ROC");
    reveal_strlit("MA");
    reveal_strlit("STD");
    reveal_strlit("BETA");
    reveal_strlit("RSQR");
    reveal_strlit("RESI");
    reveal_strlit("MAX");
    reveal_strlit("MIN");
    reveal_strlit("QTLU");
    reveal_strlit("QTLD");
    reveal_strlit("RANK");
    reveal_strlit("RSV");
    reveal_strlit("IMAX");
    reveal_strlit("IMIN");
    reveal_strlit("IMXD");
    reveal_strlit("CORR");
    reveal_strlit("CORD");
    reveal_strlit("CNTP");
    reveal_strlit("CNTN");
    reveal_strlit("CNTD");
    reveal_strlit("SUMP");
    reveal_strlit("SUMN");
    reveal_strlit("SUMD");
    reveal_strlit("VMA");
    reveal_strlit("VSTD");
    reveal_strlit("WVMA");
    reveal_strlit("VSUMP");
    reveal_strlit("VSUMN");
    reveal_strlit("VSUMD");
}

proof fn shapes_open_otherwise(i: int)
    requires
        0 <= i < 9,
    ensures
        !opens_like_a_series(KBAR@[i].0@),
{
    reveal_strlit("KMID");
    reveal_strlit("KLEN");
    reveal_strlit("KMID2");
    reveal_strlit("KUP");
    reveal_strlit("KUP2");
    reveal_strlit("KLOW");
    reveal_strlit("KLOW2");
    reveal_strlit("KSFT");
    reveal_strlit("KSFT2");
}

/// The lag whose numeral is `0` is zero.
proof fn only_zero_is_written_so(d: nat)
    requires
        decimal(d) == seq!['0'],
    ensures
        d == 0,
{
    if d >= 10 {
        assert(decimal(d / 10).len() >= 1);
        assert(decimal(d).len() >= 2);
    } else {
        assert(decimal(d)[0] == digit(d as int));
        assert(digit(d as int) as int == 48 + d);
    }
}

/// No other name is shared with Alpha158 than those of today's open, high,
/// low and average price.
pub proof fn only_todays_prices_are_shared(i: int, k: int)
    requires
        0 <= i < 158,
        0 <= k < 360,
        alpha158_list()[i].0 == alpha360_list()[k].0,
    ensures
        9 <= i < 13,
        k == 60 * (i - 8) + 59,
        alpha158_list()[i] == alpha360_list()[k],
{
    let name = alpha360_list()[k].0;
    let (s, d) = (k / 60, 59 - k % 60);
    let prefix = SERIES@[s].0@;
    assert(name == prefix + decimal(d as nat));
    series_open(s);
    assert(name[0] == prefix[0] && name[1] == prefix[1]);
    assert(alpha158_list()[i] == alpha158_feature(i));
    if i < 9 {
        shapes_open_otherwise(i);
    } else if i >= 13 {
        let f = (i - 13) / 5;
        families_open_otherwise(f);
        let family = ROLLING@[f].0@;
        assert(alpha158_feature(i) == rolling_feature(f, (i - 13) % 5));
        assert(name[0] == family[0] && name[1] == family[1]);
    } else {
        reveal_strlit("OPEN");
        reveal_strlit("HIGH");
        reveal_strlit("LOW");
        reveal_strlit("VWAP");
        reveal_strlit("OPEN0");
        reveal_strlit("HIGH0");
        reveal_strlit("LOW0");
        reveal_strlit("VWAP0");
        assert(s == i - 8);
        assert(name.len() == prefix.len() + 1);
        assert(decimal(d as nat) =~= seq!['0']) by {
            assert(decimal(d as nat)[0] == name[prefix.len() as int]);
        }
        only_zero_is_written_so(d as nat);
        todays_prices_are_shared();
    }
}

} // verus!
