//! Which lanes of a cross-section take part in a reduction over it.
use vstd::prelude::*;

use crate::double::Double;

verus! {

/// The lanes among the first `n` whose return is finite and whose weight is
/// usable, from the first up.
pub open spec fn weighted(ret: Seq<Double>, weight: Seq<Double>, n: int) -> Seq<usize>
    decreases n,
{
    if n <= 0 {
        seq![]
    } else if ret[n - 1].finite() && weight[n - 1].usable() {
        weighted(ret, weight, n - 1).push((n - 1) as usize)
    } else {
        weighted(ret, weight, n - 1)
    }
}

/// The lanes that the cap-weighted market return averages over: those with a
/// finite return and a finite positive weight. The return is the weighted sum
/// over them divided by the sum of their weights, missing when that is not
/// positive, and it fills every lane.
pub fn market_return_lanes(ret: &Vec<Double>, weight: &Vec<Double>) -> (r: Vec<usize>)
    requires
        ret@.len() == weight@.len(),
    ensures
        r@ == weighted(ret@, weight@, ret@.len() as int),
{
    let mut lanes: Vec<usize> = Vec::new();
    for i in 0..ret.len()
        invariant
            ret@.len() == weight@.len(),
            lanes@ == weighted(ret@, weight@, i as int),
    {
        if ret[i].is_finite() && weight[i].is_usable() {
            lanes.push(i);
        }
    }
    lanes
}

/// A lane takes part in the market return exactly when its return is finite
/// and its weight usable, and it does so once.
pub proof fn a_lane_weighs_once(ret: Seq<Double>, weight: Seq<Double>, n: int, lane: int)
    requires
        0 <= lane < n <= ret.len(),
        n <= weight.len(),
        n <= usize::MAX,
    ensures
        weighted(ret, weight, n).contains(lane as usize) <==> (ret[lane].finite()
            && weight[lane].usable()),
        forall|i: int, j: int|
            0 <= i < j < weighted(ret, weight, n).len() ==> weighted(ret, weight, n)[i]
                < weighted(ret, weight, n)[j],
        forall|i: int|
            0 <= i < weighted(ret, weight, n).len() ==> weighted(ret, weight, n)[i] < n,
    decreases n,
{
    let before = weighted(ret, weight, n - 1);
    let now = weighted(ret, weight, n);
    if lane < n - 1 {
        a_lane_weighs_once(ret, weight, n - 1, lane);
        if before.contains(lane as usize) {
            let k = choose|k: int| 0 <= k < before.len() && before[k] == lane as usize;
            assert(now[k] == lane as usize);
        }
    } else {
        if n > 1 {
            a_lane_weighs_once(ret, weight, n - 1, 0);
        }
        if ret[lane].finite() && weight[lane].usable() {
            assert(now[before.len() as int] == lane as usize);
        }
    }
}

/// The finite lanes among the first `n`, from the first up.
pub open spec fn finite_lanes(x: Seq<Double>, n: int) -> Seq<usize>
    decreases n,
{
    if n <= 0 {
        seq![]
    } else if x[n - 1].finite() {
        finite_lanes(x, n - 1).push((n - 1) as usize)
    } else {
        finite_lanes(x, n - 1)
    }
}

/// The lanes that a mean or a moment of the cross-section is taken over: the
/// finite ones. Non-linear size projects the cubes of these lanes off their
/// values and is missing in the others; imputation takes their mean.
pub fn finite_lanes_of(z: &Vec<Double>) -> (r: Vec<usize>)
    ensures
        r@ == finite_lanes(z@, z@.len() as int),
{
    let mut lanes: Vec<usize> = Vec::new();
    for i in 0..z.len()
        invariant
            lanes@ == finite_lanes(z@, i as int),
    {
        if z[i].is_finite() {
            lanes.push(i);
        }
    }
    lanes
}

/// The values with `mean` in the place of each missing one.
pub open spec fn imputed_with(x: Seq<Double>, mean: Double) -> Seq<Double> {
    x.map_values(
        |v: Double|
            if v.nan() {
                mean
            } else {
                v
            },
    )
}

/// Fills each missing value with `mean`, the mean of the finite ones.
pub fn impute_into(x: &Vec<Double>, mean: Double) -> (r: Vec<Double>)
    ensures
        r@ == imputed_with(x@, mean),
{
    let mut out: Vec<Double> = Vec::new();
    for i in 0..x.len()
        invariant
            out@ == imputed_with(x@.take(i as int), mean),
    {
        out.push(
            if x[i].is_nan() {
                mean
            } else {
                x[i]
            },
        );
        assert(out@ =~= imputed_with(x@.take(i + 1), mean));
    }
    assert(x@.take(x@.len() as int) =~= x@);
    out
}

/// Imputation leaves every value that is there as it is. With a mean that is
/// there no value is missing afterwards; with a missing one, as when nothing
/// is finite, nothing that was missing is made up.
pub proof fn imputation_fills_gaps_only(x: Seq<Double>, mean: Double, i: int)
    requires
        0 <= i < x.len(),
    ensures
        !x[i].nan() ==> imputed_with(x, mean)[i] == x[i],
        imputed_with(x, mean)[i].nan() <==> x[i].nan() && mean.nan(),
{
}

/// A mean is taken over exactly the finite lanes, each of them once.
pub proof fn a_finite_lane_counts_once(x: Seq<Double>, n: int, lane: int)
    requires
        0 <= lane < n <= x.len(),
        n <= usize::MAX,
    ensures
        finite_lanes(x, n).contains(lane as usize) <==> x[lane].finite(),
        forall|i: int, j: int|
            0 <= i < j < finite_lanes(x, n).len() ==> finite_lanes(x, n)[i] < finite_lanes(
                x,
                n,
            )[j],
        forall|i: int| 0 <= i < finite_lanes(x, n).len() ==> finite_lanes(x, n)[i] < n,
    decreases n,
{
    let now = finite_lanes(x, n);
    let before = finite_lanes(x, n - 1);
    if n > 1 {
        a_finite_lane_counts_once(
            x,
            n - 1,
            if lane < n - 1 {
                lane
            } else {
                0
            },
        );
    } else {
        assert(before =~= seq![]);
    }
    if lane < n - 1 {
        if before.contains(lane as usize) {
            let i = choose|i: int| 0 <= i < before.len() && before[i] == lane as usize;
            assert(now[i] == lane as usize);
        }
        if now.contains(lane as usize) {
            let i = choose|i: int| 0 <= i < now.len() && now[i] == lane as usize;
            assert(before[i] == lane as usize);
        }
    } else if x[lane].finite() {
        assert(now[before.len() as int] == lane as usize);
    }
}

} // verus!
