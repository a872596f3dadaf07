//! Cap-weighted top-`k` universe.
//!
//! The universe is a weight vector: positive for the stocks in it, zero
//! otherwise. It holds the greatest stocks by circulating market cap, weighed
//! in proportion to cap, so the same vector serves as the weights of the
//! cap-weighted index. A stock that did not trade on the most recent trading
//! day has no market cap and drops out of the selection.
use vstd::prelude::*;

use crate::double::Double;
use crate::graph::{Binary, Builder, Op, Pulse, Term, Vector, Wire, binary, t2};
use crate::sort::{orders, precedes, sorted_places};
use crate::meaning::{
    Run, cap_weight, cross, group_values, known, num, value, weights_follow_caps,
};

verus! {

/// The lanes among the first `n` with a finite positive cap, from the first
/// up.
pub open spec fn eligible(caps: Seq<Double>, n: int) -> Seq<usize>
    decreases n,
{
    if n <= 0 {
        seq![]
    } else if caps[n - 1].usable() {
        eligible(caps, n - 1).push((n - 1) as usize)
    } else {
        eligible(caps, n - 1)
    }
}

/// Keys that put the greatest cap first.
pub open spec fn falling(caps: Seq<Double>, lanes: Seq<usize>) -> Seq<i64> {
    lanes.map_values(|l: usize| (-caps[l as int].rank()) as i64)
}

/// How many lanes are chosen.
pub open spec fn chosen(k: int, eligible: int) -> int {
    if k < eligible {
        k
    } else {
        eligible
    }
}

/// Whether `members` are the `k` lanes of the greatest caps, or all eligible
/// ones if there are fewer, the greatest first and equal caps in lane order.
pub open spec fn top_lanes(caps: Seq<Double>, k: int, members: Seq<usize>) -> bool {
    let lanes = eligible(caps, caps.len() as int);
    let m = lanes.len() as int;
    exists|order: Seq<usize>| #[trigger]
        orders(falling(caps, lanes), 0, m, order) && members == Seq::new(
            chosen(k, m) as nat,
            |i: int| lanes[order[i] as int],
        )
}

proof fn eligible_lanes_are_inside(caps: Seq<Double>, n: int)
    requires
        0 <= n <= caps.len(),
        n <= usize::MAX,
    ensures
        eligible(caps, n).len() <= n,
        forall|i: int|
            0 <= i < eligible(caps, n).len() ==> (#[trigger] eligible(caps, n)[i]) < n
                && caps[eligible(caps, n)[i] as int].usable(),
    decreases n,
{
    if n > 0 {
        eligible_lanes_are_inside(caps, n - 1);
    }
}

/// Market-cap-weighted top-`k` selection, recomputed on each pulse of its
/// clock. The weight of a member is its cap divided by the sum of the
/// members' caps; every other lane weighs zero.
#[derive(Debug)]
pub struct CapWeightedTopK {
    k: usize,
    members: Vec<usize>,
}

impl CapWeightedTopK {
    /// How many lanes are selected.
    pub closed spec fn k(self) -> int {
        self.k as int
    }

    /// The lanes that are selected.
    pub closed spec fn members(self) -> Seq<usize> {
        self.members@
    }

    /// A selection before its first pulse: nothing is selected.
    pub fn init(k: usize) -> (r: CapWeightedTopK)
        ensures
            r.k() == k,
            r.members() == Seq::<usize>::empty(),
    {
        CapWeightedTopK { k, members: Vec::new() }
    }

    /// The lanes that are selected.
    pub fn selected(&self) -> (r: &Vec<usize>)
        ensures
            r@ == self.members(),
    {
        &self.members
    }

    /// Takes in a cross-section of market caps. Without a pulse the selection
    /// stays; with one it is made anew.
    pub fn compute(&mut self, signal: bool, caps: &Vec<Double>)
        ensures
            final(self).k() == old(self).k(),
            !signal ==> final(self).members() == old(self).members(),
            signal ==> top_lanes(caps@, old(self).k(), final(self).members()),
    {
        if !signal {
            return;
        }
        let mut lanes: Vec<usize> = Vec::new();
        let mut keys: Vec<i64> = Vec::new();
        for i in 0..caps.len()
            invariant
                lanes@ == eligible(caps@, i as int),
                keys@ == falling(caps@, lanes@),
        {
            if caps[i].is_usable() {
                lanes.push(i);
                keys.push(-caps[i].order());
                assert(keys@ =~= falling(caps@, lanes@));
            }
        }
        let order = sorted_places(&keys);
        let ghost m = lanes@.len() as int;
        assert(orders(falling(caps@, lanes@), 0, m, order@));
        let count: usize = if self.k < lanes.len() {
            self.k
        } else {
            lanes.len()
        };
        let mut members: Vec<usize> = Vec::new();
        for i in 0..count
            invariant
                count <= lanes@.len(),
                orders(falling(caps@, lanes@), 0, lanes@.len() as int, order@),
                members@ == Seq::new(i as nat, |j: int| lanes@[order@[j] as int]),
        {
            members.push(lanes[order[i]]);
            assert(members@ =~= Seq::new((i + 1) as nat, |j: int| lanes@[order@[j] as int]));
        }
        self.members = members;
    }
}

/// Every member is eligible, and no eligible lane outside has a greater cap
/// than a member.
pub proof fn members_are_the_greatest(
    caps: Seq<Double>,
    k: int,
    members: Seq<usize>,
    i: int,
    lane: int,
)
    requires
        caps.len() <= usize::MAX,
        k >= 0,
        top_lanes(caps, k, members),
        0 <= i < members.len(),
        0 <= lane < caps.len(),
        caps[lane].usable(),
        !members.contains(lane as usize),
    ensures
        members[i] < caps.len(),
        caps[members[i] as int].usable(),
        caps[lane].at_most(caps[members[i] as int]),
{
    let n = caps.len() as int;
    let lanes = eligible(caps, n);
    let m = lanes.len() as int;
    let keys = falling(caps, lanes);
    let order = choose|order: Seq<usize>| #[trigger]
        orders(keys, 0, m, order) && members == Seq::new(
            chosen(k, m) as nat,
            |i: int| lanes[order[i] as int],
        );
    eligible_lanes_are_inside(caps, n);
    let p = order[i] as int;
    assert(members[i] == lanes[p]);
    let at = lane_is_listed(caps, n, lane);
    assert(order.contains(at as usize));
    let j = choose|j: int| 0 <= j < order.len() && order[j] == at as usize;
    if j < members.len() {
        assert(members[j] == lane as usize);
    }
    assert(precedes(keys, order[i] as int, order[j] as int));
    assert(keys[p] == (-caps[lanes[p] as int].rank()) as i64);
    assert(keys[at] == (-caps[lane].rank()) as i64);
    assert(caps[lanes[p] as int].usable());
}

proof fn lane_is_listed(caps: Seq<Double>, n: int, lane: int) -> (at: int)
    requires
        0 <= lane < n <= caps.len(),
        n <= usize::MAX,
        caps[lane].usable(),
    ensures
        0 <= at < eligible(caps, n).len(),
        eligible(caps, n)[at] == lane as usize,
    decreases n,
{
    if lane == n - 1 {
        eligible(caps, n - 1).len() as int
    } else {
        lane_is_listed(caps, n - 1, lane)
    }
}

/// The weights of the top-`k` universe by circulating market cap.
pub open spec fn universe_of(clock: Term, close: Term, circulating: Term, k: usize) -> Term {
    t2(Op::TopByCap(k), clock, binary(Binary::Mul, close, circulating))
}

/// The cap-weighted top-`k` universe over circulating market cap (close times
/// circulating shares), on the rebalance pulse.
pub fn build_cap_weighted_universe(
    b: &mut Builder,
    close: Wire<Vector>,
    circulating: Wire<Vector>,
    rebalance: Wire<Pulse>,
    k: usize,
) -> (r: Wire<Vector>)
    requires
        old(b).ordered(),
        old(b).has(close),
        old(b).has(circulating),
        old(b).has(rebalance),
    ensures
        final(b).grown(*old(b)),
        final(b).has(r),
        r@ == universe_of(rebalance@, close@, circulating@, k),
{
    let circ_cap = b.binary(Binary::Mul, close, circulating);
    b.top_by_cap(k, rebalance, circ_cap)
}

/// The members are different lanes, the greatest cap first, and as many as
/// asked for if so many are eligible.
pub proof fn members_fall_in_cap(caps: Seq<Double>, k: int, members: Seq<usize>, i: int, j: int)
    requires
        caps.len() <= usize::MAX,
        k >= 0,
        top_lanes(caps, k, members),
        0 <= i < j < members.len(),
    ensures
        members.len() <= k,
        members[i] != members[j],
        members[i] < caps.len(),
        members[j] < caps.len(),
        caps[members[j] as int].at_most(caps[members[i] as int]),
        caps[members[i] as int].rank() == caps[members[j] as int].rank() ==> members[i]
            < members[j],
{
    let n = caps.len() as int;
    let lanes = eligible(caps, n);
    let m = lanes.len() as int;
    let keys = falling(caps, lanes);
    let order = choose|order: Seq<usize>| #[trigger]
        orders(keys, 0, m, order) && members == Seq::new(
            chosen(k, m) as nat,
            |i: int| lanes[order[i] as int],
        );
    eligible_lanes_are_inside(caps, n);
    eligible_lanes_ascend(caps, n);
    assert(precedes(keys, order[i] as int, order[j] as int));
    let (p, q) = (order[i] as int, order[j] as int);
    assert(members[i] == lanes[p] && members[j] == lanes[q]);
    assert(keys[p] == (-caps[lanes[p] as int].rank()) as i64);
    assert(keys[q] == (-caps[lanes[q] as int].rank()) as i64);
}

proof fn eligible_lanes_ascend(caps: Seq<Double>, n: int)
    requires
        0 <= n <= caps.len(),
        n <= usize::MAX,
    ensures
        forall|i: int, j: int|
            #![trigger eligible(caps, n)[i], eligible(caps, n)[j]]
            0 <= i < j < eligible(caps, n).len() ==> eligible(caps, n)[i] < eligible(caps, n)[j],
    decreases n,
{
    if n > 0 {
        eligible_lanes_ascend(caps, n - 1);
        eligible_lanes_are_inside(caps, n - 1);
    }
}

/// Fewer than `k` members are chosen only when every eligible lane is one.
pub proof fn no_place_stays_free(caps: Seq<Double>, k: int, members: Seq<usize>, lane: int)
    requires
        caps.len() <= usize::MAX,
        k >= 0,
        top_lanes(caps, k, members),
        members.len() < k,
        0 <= lane < caps.len(),
        caps[lane].usable(),
    ensures
        members.contains(lane as usize),
{
    let n = caps.len() as int;
    let lanes = eligible(caps, n);
    let m = lanes.len() as int;
    let keys = falling(caps, lanes);
    let order = choose|order: Seq<usize>| #[trigger]
        orders(keys, 0, m, order) && members == Seq::new(
            chosen(k, m) as nat,
            |i: int| lanes[order[i] as int],
        );
    eligible_lanes_are_inside(caps, n);
    let at = lane_is_listed(caps, n, lane);
    assert(order.contains(at as usize));
    let j = choose|j: int| 0 <= j < order.len() && order[j] == at as usize;
    assert(members[j] == lane as usize);
}

/// The cap that a lane is ranked and weighed by: its close times its
/// circulating shares, at the latest rebalance.
pub open spec fn circulating_cap(
    run: Run,
    clock: Term,
    close: Term,
    circulating: Term,
    now: int,
) -> spec_fn(int) -> Option<real> {
    |l: int|
        match (
            value(run, close, l, (run.back)(clock, now, 0)),
            value(run, circulating, l, (run.back)(clock, now, 0)),
        ) {
            (Some(price), Some(shares)) => Some(price * shares),
            _ => None,
        }
}

/// A stock's weight in the universe is that of close times circulating shares
/// among the `k` greatest.
pub proof fn the_universe_weighs_circulating_caps(
    run: Run,
    clock: Term,
    close: Term,
    circulating: Term,
    k: usize,
    lane: int,
    now: int,
)
    ensures
        value(run, universe_of(clock, close, circulating, k), lane, now) == Some(
            cap_weight(
                circulating_cap(run, clock, close, circulating, now),
                k as nat,
                run.lanes,
                lane,
            ),
        ),
{
    broadcast use group_values;

    let t = universe_of(clock, close, circulating, k);
    let at = (run.back)(clock, now, 0);
    let cap = binary(Binary::Mul, close, circulating);
    assert(t.inputs[0] == clock && t.inputs[1] == cap);
    assert forall|l: int| #[trigger] cross(run, cap, at)(l) == circulating_cap(
        run,
        clock,
        close,
        circulating,
        now,
    )(l) by {}
    assert(cross(run, cap, at) =~= circulating_cap(run, clock, close, circulating, now));
}

/// Of two stocks of one price, the one with more circulating shares never
/// weighs less; and two members weigh as their caps do.
pub proof fn more_shares_never_weigh_less(
    run: Run,
    clock: Term,
    close: Term,
    circulating: Term,
    k: usize,
    i: int,
    j: int,
    now: int,
)
    requires
        0 <= i < run.lanes,
        0 <= j < run.lanes,
        known(run, close, i, (run.back)(clock, now, 0)),
        known(run, close, j, (run.back)(clock, now, 0)),
        known(run, circulating, i, (run.back)(clock, now, 0)),
        known(run, circulating, j, (run.back)(clock, now, 0)),
    ensures
        ({
            let at = (run.back)(clock, now, 0);
            let (p, q) = (num(run, close, i, at), num(run, close, j, at));
            let (x, y) = (num(run, circulating, i, at), num(run, circulating, j, at));
            let universe = universe_of(clock, close, circulating, k);
            let (v, w) = (num(run, universe, i, now), num(run, universe, j, now));
            &&& p == q && p > 0real && x > y ==> v >= w
            &&& v > 0real && w > 0real ==> v * (q * y) == w * (p * x)
            &&& v > 0real ==> p * x > 0real
            &&& v >= 0real
        }),
{
    the_universe_weighs_circulating_caps(run, clock, close, circulating, k, i, now);
    the_universe_weighs_circulating_caps(run, clock, close, circulating, k, j, now);
    let at = (run.back)(clock, now, 0);
    let caps = circulating_cap(run, clock, close, circulating, now);
    let (p, q) = (num(run, close, i, at), num(run, close, j, at));
    let (x, y) = (num(run, circulating, i, at), num(run, circulating, j, at));
    assert(caps(i) == Some(p * x) && caps(j) == Some(q * y));
    weights_follow_caps(caps, k as nat, run.lanes, i, j);
    if p == q && p > 0real && x > y {
        assert(p * x > q * y) by (nonlinear_arith)
            requires
                p == q,
                p > 0real,
                x > y,
        ;
    }
}

} // verus!
