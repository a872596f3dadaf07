//! Range-adjusted momentum: the return earned on the days of wide amplitude
//! less the return earned on the days of narrow amplitude.
use vstd::prelude::*;

use crate::double::Double;
use crate::sort::{orders, precedes, sorted_places};

verus! {

/// Days below which there is no momentum to speak of.
pub const LEAST_DAYS: usize = 5;

/// The `(amplitude, return)` pairs of the first `n` days, without the days on
/// which the stock did not trade.
pub open spec fn traded(amp: Seq<Double>, ret: Seq<Double>, n: int) -> Seq<(Double, Double)>
    decreases n,
{
    if n <= 0 {
        seq![]
    } else if amp[n - 1].finite() && ret[n - 1].finite() {
        traded(amp, ret, n - 1).push((amp[n - 1], ret[n - 1]))
    } else {
        traded(amp, ret, n - 1)
    }
}

/// The places of the pairs' amplitudes in the order of the values.
pub open spec fn amplitude_ranks(pairs: Seq<(Double, Double)>) -> Seq<i64> {
    pairs.map_values(|p: (Double, Double)| p.0.rank() as i64)
}

/// A fifth of `m` days, rounded to the nearest, and at least one.
pub open spec fn fifth(m: int) -> int {
    if m < 3 {
        1
    } else {
        (m + 2) / 5
    }
}

/// The returns of `pairs` at the places `order[from..to]`.
pub open spec fn gains(pairs: Seq<(Double, Double)>, order: Seq<usize>, from: int, to: int) -> Seq<
    Double,
> {
    Seq::new((to - from) as nat, |i: int| pairs[order[from + i] as int].1)
}

/// Whether `narrow` and `wide` are the returns of the fifth of the days with
/// the smallest and of the fifth with the greatest amplitudes, each from the
/// smallest amplitude up and equal amplitudes in time order.
pub open spec fn split(pairs: Seq<(Double, Double)>, narrow: Seq<Double>, wide: Seq<Double>) -> bool {
    let m = pairs.len() as int;
    exists|order: Seq<usize>| #[trigger]
        orders(amplitude_ranks(pairs), 0, m, order) && narrow == gains(pairs, order, 0, fifth(m))
            && wide == gains(pairs, order, m - fifth(m), m)
}

/// A trailing window of a panel of two columns, scanned lane by lane.
#[derive(Clone, Copy, Debug)]
pub struct Scan2 {
    pub window: usize,
}

impl Scan2 {
    /// Where the scan starts in a stream that ends at `end` and of which
    /// `len` rows are kept: the last full window, if there is one.
    pub fn start(&self, len: usize, end: usize) -> (r: Option<usize>)
        requires
            len <= end,
        ensures
            len < self.window ==> r is None,
            len >= self.window ==> r == Some((end - self.window) as usize),
    {
        if len < self.window {
            None
        } else {
            Some(end - self.window)
        }
    }
}

/// The two columns of lane `j` of flat rows.
pub fn channels(rows: &Vec<Vec<Double>>, j: usize) -> (r: (Vec<Double>, Vec<Double>))
    requires
        forall|k: int| 0 <= k < rows@.len() ==> 2 * j + 1 < (#[trigger] rows@[k])@.len(),
    ensures
        r.0@ == Seq::new(rows@.len(), |k: int| rows@[k]@[2 * j]),
        r.1@ == Seq::new(rows@.len(), |k: int| rows@[k]@[2 * j + 1]),
{
    let mut first: Vec<Double> = Vec::new();
    let mut second: Vec<Double> = Vec::new();
    for k in 0..rows.len()
        invariant
            forall|k: int| 0 <= k < rows@.len() ==> 2 * j + 1 < (#[trigger] rows@[k])@.len(),
            first@ == Seq::new(k as nat, |i: int| rows@[i]@[2 * j]),
            second@ == Seq::new(k as nat, |i: int| rows@[i]@[2 * j + 1]),
    {
        let row = &rows[k];
        let width: usize = row.len();
        assert(2 * j + 1 < width);
        first.push(row[2 * j]);
        second.push(row[2 * j + 1]);
        assert(first@ =~= Seq::new((k + 1) as nat, |i: int| rows@[i]@[2 * j]));
        assert(second@ =~= Seq::new((k + 1) as nat, |i: int| rows@[i]@[2 * j + 1]));
    }
    (first, second)
}

fn pick(pairs: &Vec<(Double, Double)>, order: &Vec<usize>, from: usize, to: usize) -> (r: Vec<
    Double,
>)
    requires
        from <= to <= order@.len(),
        forall|i: int| 0 <= i < order@.len() ==> (#[trigger] order@[i]) < pairs@.len(),
    ensures
        r@ == gains(pairs@, order@, from as int, to as int),
{
    let mut out: Vec<Double> = Vec::new();
    let mut i: usize = from;
    while i < to
        invariant
            from <= i <= to <= order@.len(),
            forall|i: int| 0 <= i < order@.len() ==> (#[trigger] order@[i]) < pairs@.len(),
            out@ == gains(pairs@, order@, from as int, i as int),
        decreases to - i,
    {
        out.push(pairs[order[i]].1);
        i += 1;
        assert(out@ =~= gains(pairs@, order@, from as int, i as int));
    }
    out
}

/// Splits off the days of range-adjusted momentum: the returns of the fifth
/// of the traded days with the smallest amplitudes, and of the fifth with the
/// greatest. The factor is the sum of the second less the sum of the first;
/// it is missing below [`LEAST_DAYS`] traded days.
pub fn range_mom(amp: &Vec<Double>, ret: &Vec<Double>) -> (r: Option<(Vec<Double>, Vec<Double>)>)
    requires
        amp@.len() == ret@.len(),
    ensures
        ({
            let pairs = traded(amp@, ret@, amp@.len() as int);
            match r {
                Some((narrow, wide)) => pairs.len() >= LEAST_DAYS && split(
                    pairs,
                    narrow@,
                    wide@,
                ),
                None => pairs.len() < LEAST_DAYS,
            }
        }),
{
    let mut pairs: Vec<(Double, Double)> = Vec::new();
    let mut keys: Vec<i64> = Vec::new();
    for i in 0..amp.len()
        invariant
            amp@.len() == ret@.len(),
            pairs@ == traded(amp@, ret@, i as int),
            keys@ == amplitude_ranks(pairs@),
            pairs@.len() <= i,
    {
        if amp[i].is_finite() && ret[i].is_finite() {
            pairs.push((amp[i], ret[i]));
            keys.push(amp[i].order());
            assert(keys@ =~= amplitude_ranks(pairs@));
        }
    }
    let m: usize = pairs.len();
    if m < LEAST_DAYS {
        return None;
    }
    let order = sorted_places(&keys);
    let k: usize = if m % 5 >= 3 {
        m / 5 + 1
    } else {
        m / 5
    };
    let narrow = pick(&pairs, &order, 0, k);
    let wide = pick(&pairs, &order, m - k, m);
    assert(orders(amplitude_ranks(pairs@), 0, m as int, order@));
    Some((narrow, wide))
}

/// The days of the wide fifth had amplitudes at least as great as those of
/// the narrow fifth, and no day counts in both.
pub proof fn the_fifths_are_apart(pairs: Seq<(Double, Double)>, order: Seq<usize>, i: int, j: int)
    requires
        pairs.len() >= LEAST_DAYS,
        forall|k: int| 0 <= k < pairs.len() ==> (#[trigger] pairs[k]).0.finite(),
        orders(amplitude_ranks(pairs), 0, pairs.len() as int, order),
        0 <= i < fifth(pairs.len() as int),
        pairs.len() - fifth(pairs.len() as int) <= j < pairs.len(),
    ensures
        order[i] != order[j],
        pairs[order[i] as int].0.at_most(pairs[order[j] as int].0),
{
    let keys = amplitude_ranks(pairs);
    assert(precedes(keys, order[i] as int, order[j] as int));
    let a = pairs[order[i] as int].0;
    let b = pairs[order[j] as int].0;
    assert(a.finite() && b.finite());
    assert(keys[order[i] as int] == a.rank() as i64);
    assert(keys[order[j] as int] == b.rank() as i64);
}

/// The days of a stream, traded or not.
pub open spec fn days_of(amp: Seq<Double>, ret: Seq<Double>, n: int) -> Seq<(Double, Double)> {
    Seq::new(n as nat, |i: int| (amp[i], ret[i]))
}

/// Whether the stock traded on a day.
pub open spec fn trades(day: (Double, Double)) -> bool {
    day.0.finite() && day.1.finite()
}

proof fn traded_days_are_counted(
    amp: Seq<Double>,
    ret: Seq<Double>,
    n: int,
    day: (Double, Double),
)
    requires
        0 <= n <= amp.len(),
        amp.len() == ret.len(),
    ensures
        traded(amp, ret, n).to_multiset().count(day) == if trades(day) {
            days_of(amp, ret, n).to_multiset().count(day)
        } else {
            0
        },
    decreases n,
{
    broadcast use vstd::seq_lib::group_to_multiset_ensures;
    broadcast use vstd::multiset::group_multiset_axioms;

    if n > 0 {
        traded_days_are_counted(amp, ret, n - 1, day);
        let last = (amp[n - 1], ret[n - 1]);
        assert(days_of(amp, ret, n) =~= days_of(amp, ret, n - 1).push(last));
    } else {
        assert(days_of(amp, ret, n) =~= Seq::empty());
        assert(traded(amp, ret, n) =~= Seq::empty());
    }
}

/// Whether no two days have the same amplitude.
pub open spec fn amplitudes_differ(pairs: Seq<(Double, Double)>) -> bool {
    forall|i: int, j: int|
        #![trigger pairs[i], pairs[j]]
        0 <= i < j < pairs.len() ==> pairs[i].0.rank() != pairs[j].0.rank()
}

/// Whether days come with growing amplitudes.
spec fn grows(pairs: Seq<(Double, Double)>) -> bool {
    forall|i: int, j: int|
        #![trigger pairs[i], pairs[j]]
        0 <= i < j < pairs.len() ==> pairs[i].0.rank() < pairs[j].0.rank()
}

/// Days in an order.
spec fn in_line(pairs: Seq<(Double, Double)>, order: Seq<usize>) -> Seq<(Double, Double)> {
    order.map_values(|place: usize| pairs[place as int])
}

proof fn an_order_lines_up(pairs: Seq<(Double, Double)>, order: Seq<usize>)
    requires
        pairs.len() <= usize::MAX,
        amplitudes_differ(pairs),
        forall|i: int| 0 <= i < pairs.len() ==> trades(#[trigger] pairs[i]),
        orders(amplitude_ranks(pairs), 0, pairs.len() as int, order),
    ensures
        grows(in_line(pairs, order)),
        in_line(pairs, order).len() == pairs.len(),
        forall|day: (Double, Double)| #[trigger]
            in_line(pairs, order).contains(day) <==> pairs.contains(day),
{
    let keys = amplitude_ranks(pairs);
    let line = in_line(pairs, order);
    assert forall|i: int, j: int|
        #![trigger line[i], line[j]]
        0 <= i < j < line.len() implies line[i].0.rank() < line[j].0.rank() by {
        let (x, y) = (order[i] as int, order[j] as int);
        assert(precedes(keys, x, y));
        assert(keys[x] == pairs[x].0.rank() as i64 && keys[y] == pairs[y].0.rank() as i64);
        assert(trades(pairs[x]) && trades(pairs[y]));
    }
    assert forall|day: (Double, Double)| #[trigger]
        line.contains(day) <==> pairs.contains(day) by {
        if line.contains(day) {
            let i = choose|i: int| 0 <= i < line.len() && line[i] == day;
            assert(pairs[order[i] as int] == day);
        }
        if pairs.contains(day) {
            let x = choose|x: int| 0 <= x < pairs.len() && pairs[x] == day;
            assert(order.contains(x as usize));
            let i = choose|i: int| 0 <= i < order.len() && order[i] == x as usize;
            assert(line[i] == day);
        }
    }
}

proof fn one_line_only(a: Seq<(Double, Double)>, b: Seq<(Double, Double)>, n: int)
    requires
        grows(a),
        grows(b),
        a.len() == b.len(),
        forall|day: (Double, Double)| #[trigger] a.contains(day) <==> b.contains(day),
        0 <= n <= a.len(),
    ensures
        forall|i: int| 0 <= i < n ==> a[i] == b[i],
    decreases n,
{
    if n > 0 {
        one_line_only(a, b, n - 1);
        let (x, y) = (a[n - 1], b[n - 1]);
        assert(a.contains(x) && b.contains(y));
        assert(b.contains(x) && a.contains(y));
        let i = choose|i: int| 0 <= i < b.len() && b[i] == x;
        let j = choose|j: int| 0 <= j < a.len() && a[j] == y;
        if i < n - 1 {
            assert(a[i] == b[i]);
            assert(a[i].0.rank() < a[n - 1].0.rank());
        }
        if j < n - 1 {
            assert(a[j] == b[j]);
            assert(b[j].0.rank() < b[n - 1].0.rank());
        }
        if i > n - 1 && j > n - 1 {
            assert(b[n - 1].0.rank() < b[i].0.rank());
            assert(a[n - 1].0.rank() < a[j].0.rank());
        }
    }
}

proof fn counts_keep_amplitudes_apart(p: Seq<(Double, Double)>, q: Seq<(Double, Double)>)
    requires
        amplitudes_differ(p),
        p.to_multiset() == q.to_multiset(),
    ensures
        amplitudes_differ(q),
        p.len() == q.len(),
        forall|day: (Double, Double)| #[trigger] p.contains(day) <==> q.contains(day),
{
    p.to_multiset_ensures();
    q.to_multiset_ensures();
    assert(p.no_duplicates());
    p.lemma_multiset_has_no_duplicates();
    q.lemma_multiset_has_no_duplicates_conv();
    assert forall|day: (Double, Double)| #[trigger] p.contains(day) <==> q.contains(day) by {
        vstd::seq_lib::to_multiset_contains(p, day);
        vstd::seq_lib::to_multiset_contains(q, day);
    }
    assert forall|i: int, j: int|
        #![trigger q[i], q[j]]
        0 <= i < j < q.len() implies q[i].0.rank() != q[j].0.rank() by {
        assert(q.contains(q[i]) && q.contains(q[j]));
        assert(p.contains(q[i]) && p.contains(q[j]));
        let x = choose|x: int| 0 <= x < p.len() && p[x] == q[i];
        let y = choose|y: int| 0 <= y < p.len() && p[y] == q[j];
        assert(q[i] != q[j]);
        if x < y {
            assert(p[x].0.rank() != p[y].0.rank());
        } else {
            assert(p[y].0.rank() != p[x].0.rank());
        }
    }
}

/// Only the traded days count, and not their order: of two streams with the
/// same traded days, no two of them of one amplitude, either has momentum
/// when the other has, with the same returns in both fifths. Days on which
/// the stock did not trade may stand anywhere, in any number.
pub proof fn only_traded_days_count(
    amp: Seq<Double>,
    ret: Seq<Double>,
    amp2: Seq<Double>,
    ret2: Seq<Double>,
    narrow: Seq<Double>,
    wide: Seq<Double>,
    narrow2: Seq<Double>,
    wide2: Seq<Double>,
)
    requires
        amp.len() == ret.len() <= usize::MAX,
        amp2.len() == ret2.len() <= usize::MAX,
        amplitudes_differ(traded(amp, ret, amp.len() as int)),
        forall|day: (Double, Double)|
            trades(day) ==> #[trigger] days_of(amp, ret, amp.len() as int).to_multiset().count(day)
                == days_of(amp2, ret2, amp2.len() as int).to_multiset().count(day),
    ensures
        ({
            let (p, q) = (
                traded(amp, ret, amp.len() as int),
                traded(amp2, ret2, amp2.len() as int),
            );
            &&& p.len() == q.len()
            &&& p.len() >= LEAST_DAYS && split(p, narrow, wide) && split(q, narrow2, wide2)
                ==> narrow == narrow2 && wide == wide2
        }),
{
    broadcast use vstd::multiset::group_multiset_axioms;

    let (p, q) = (traded(amp, ret, amp.len() as int), traded(amp2, ret2, amp2.len() as int));
    assert forall|day: (Double, Double)| p.to_multiset().count(day) == q.to_multiset().count(
        day,
    ) by {
        traded_days_are_counted(amp, ret, amp.len() as int, day);
        traded_days_are_counted(amp2, ret2, amp2.len() as int, day);
    }
    assert(p.to_multiset() =~= q.to_multiset());
    counts_keep_amplitudes_apart(p, q);
    if p.len() >= LEAST_DAYS && split(p, narrow, wide) && split(q, narrow2, wide2) {
        traded_days_trade(amp, ret, amp.len() as int);
        traded_days_trade(amp2, ret2, amp2.len() as int);
        let m = p.len() as int;
        let order = choose|order: Seq<usize>| #[trigger]
            orders(amplitude_ranks(p), 0, m, order) && narrow == gains(p, order, 0, fifth(m))
                && wide == gains(p, order, m - fifth(m), m);
        let order2 = choose|order: Seq<usize>| #[trigger]
            orders(amplitude_ranks(q), 0, m, order) && narrow2 == gains(q, order, 0, fifth(m))
                && wide2 == gains(q, order, m - fifth(m), m);
        an_order_lines_up(p, order);
        an_order_lines_up(q, order2);
        let (a, b) = (in_line(p, order), in_line(q, order2));
        one_line_only(a, b, m);
        assert forall|i: int| 0 <= i < m implies p[#[trigger] order[i] as int]
            == q[order2[i] as int] by {
            assert(a[i] == b[i]);
        }
        assert forall|i: int| 0 <= i < fifth(m) implies narrow[i] == narrow2[i] by {
            assert(p[order[0 + i] as int] == q[order2[0 + i] as int]);
        }
        assert forall|i: int| 0 <= i < fifth(m) implies wide[i] == wide2[i] by {
            let k = m - fifth(m) + i;
            assert(p[order[k] as int] == q[order2[k] as int]);
        }
        assert(narrow =~= narrow2);
        assert(wide =~= wide2);
    }
}

proof fn traded_days_trade(amp: Seq<Double>, ret: Seq<Double>, n: int)
    ensures
        forall|i: int| 0 <= i < traded(amp, ret, n).len() ==> trades(
            #[trigger] traded(amp, ret, n)[i],
        ),
        n >= 0 ==> traded(amp, ret, n).len() <= n,
    decreases n,
{
    if n > 0 {
        traded_days_trade(amp, ret, n - 1);
    }
}

/// A fifth is the whole number closest to the fifth part, from three days on,
/// and never none.
pub proof fn a_fifth_is_the_closest(m: int)
    requires
        m >= 3,
    ensures
        -2 <= 5 * fifth(m) - m <= 2,
        fifth(m) >= 1,
        2 * fifth(m) <= m,
{
}

/// The narrow and the wide returns are as many as a fifth of the days. There
/// is an order of the days in which the narrow ones come first and the wide
/// ones last, and in which a day with a greater amplitude never comes before
/// one with a smaller.
pub proof fn the_fifths_are_the_ends(
    pairs: Seq<(Double, Double)>,
    narrow: Seq<Double>,
    wide: Seq<Double>,
) -> (order: Seq<usize>)
    requires
        pairs.len() >= LEAST_DAYS,
        forall|k: int| 0 <= k < pairs.len() ==> (#[trigger] pairs[k]).0.finite(),
        split(pairs, narrow, wide),
    ensures
        order.len() == pairs.len(),
        narrow.len() == fifth(pairs.len() as int),
        wide.len() == fifth(pairs.len() as int),
        forall|i: int| 0 <= i < order.len() ==> (#[trigger] order[i]) < pairs.len(),
        forall|i: int, j: int|
            0 <= i < j < order.len() ==> #[trigger] order[i] != #[trigger] order[j]
                && pairs[order[i] as int].0.at_most(pairs[order[j] as int].0),
        forall|i: int| 0 <= i < narrow.len() ==> #[trigger] narrow[i] == pairs[order[i] as int].1,
        forall|i: int|
            0 <= i < wide.len() ==> #[trigger] wide[i] == pairs[order[pairs.len() - wide.len()
                + i] as int].1,
{
    let m = pairs.len() as int;
    let keys = amplitude_ranks(pairs);
    let order = choose|order: Seq<usize>| #[trigger]
        orders(keys, 0, m, order) && narrow == gains(pairs, order, 0, fifth(m)) && wide == gains(
            pairs,
            order,
            m - fifth(m),
            m,
        );
    assert forall|i: int, j: int| 0 <= i < j < order.len() implies #[trigger] order[i]
        != #[trigger] order[j] && pairs[order[i] as int].0.at_most(pairs[order[j] as int].0) by {
        assert(precedes(keys, order[i] as int, order[j] as int));
        let a = pairs[order[i] as int].0;
        let b = pairs[order[j] as int].0;
        assert(a.finite() && b.finite());
        assert(keys[order[i] as int] == a.rank() as i64);
        assert(keys[order[j] as int] == b.rank() as i64);
    }
    order
}

} // verus!
