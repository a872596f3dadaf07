//! Sorting by key: the order in which the entries of a list come when equal
//! keys stay in their places.
use vstd::prelude::*;

use crate::graph::texts;
use crate::text::{before, before_is_strict, before_is_transitive, comes_before};

verus! {

/// Whether entry `x` comes before entry `y`: by its key, and where the keys
/// are equal by its place.
pub open spec fn precedes(keys: Seq<i64>, x: int, y: int) -> bool {
    keys[x] < keys[y] || (keys[x] == keys[y] && x < y)
}

/// Whether `order` lists entries of `keys`, each after those that precede it.
pub open spec fn in_order(keys: Seq<i64>, order: Seq<usize>) -> bool {
    forall|i: int, j: int|
        #![trigger order[i], order[j]]
        0 <= i < j < order.len() ==> precedes(keys, order[i] as int, order[j] as int)
}

/// Whether `order` lists the entries from `from` to `to`, all of them and
/// each after those that precede it.
pub open spec fn orders(keys: Seq<i64>, from: int, to: int, order: Seq<usize>) -> bool {
    &&& in_order(keys, order)
    &&& order.len() == to - from
    &&& forall|i: int| 0 <= i < order.len() ==> from <= #[trigger] order[i] < to
    &&& forall|x: usize| from <= x < to ==> #[trigger] order.contains(x)
}

/// Merges two ordered lists, the entries of the first all from before those
/// of the second.
fn merge(keys: &Vec<i64>, a: &Vec<usize>, b: &Vec<usize>, from: usize, mid: usize, to: usize) -> (r:
    Vec<usize>)
    requires
        from <= mid <= to <= keys.len(),
        orders(keys@, from as int, mid as int, a@),
        orders(keys@, mid as int, to as int, b@),
    ensures
        orders(keys@, from as int, to as int, r@),
{
    let mut out: Vec<usize> = Vec::new();
    let mut i: usize = 0;
    let mut j: usize = 0;
    while i < a.len() || j < b.len()
        invariant
            from <= mid <= to <= keys.len(),
            orders(keys@, from as int, mid as int, a@),
            orders(keys@, mid as int, to as int, b@),
            i <= a.len(),
            j <= b.len(),
            out@.len() == i + j,
            in_order(keys@, out@),
            forall|k: int| 0 <= k < out@.len() ==> from <= #[trigger] out@[k] < to,
            forall|k: int, l: int|
                #![trigger out@[k], a@[l]]
                0 <= k < out@.len() && i <= l < a@.len() ==> precedes(
                    keys@,
                    out@[k] as int,
                    a@[l] as int,
                ),
            forall|k: int, l: int|
                #![trigger out@[k], b@[l]]
                0 <= k < out@.len() && j <= l < b@.len() ==> precedes(
                    keys@,
                    out@[k] as int,
                    b@[l] as int,
                ),
            forall|l: int| 0 <= l < i ==> out@.contains(#[trigger] a@[l]),
            forall|l: int| 0 <= l < j ==> out@.contains(#[trigger] b@[l]),
        decreases a.len() - i + b.len() - j,
    {
        let ghost before = out@;
        let left = if j >= b.len() {
            true
        } else if i >= a.len() {
            false
        } else {
            keys[a[i]] <= keys[b[j]]
        };
        if left {
            out.push(a[i]);
            i += 1;
        } else {
            out.push(b[j]);
            j += 1;
        }
        proof {
            assert forall|x: usize| before.contains(x) implies #[trigger] out@.contains(x) by {
                let k = choose|k: int| 0 <= k < before.len() && before[k] == x;
                assert(out@[k] == x);
            }
            assert(out@[before.len() as int] == out@.last());
        }
    }
    proof {
        assert forall|x: usize| from <= x < to implies #[trigger] out@.contains(x) by {
            if x < mid {
                assert(a@.contains(x));
                let l = choose|l: int| 0 <= l < a@.len() && a@[l] == x;
                assert(out@.contains(a@[l]));
            } else {
                assert(b@.contains(x));
                let l = choose|l: int| 0 <= l < b@.len() && b@[l] == x;
                assert(out@.contains(b@[l]));
            }
        }
    }
    out
}

fn sort_range(keys: &Vec<i64>, from: usize, to: usize) -> (r: Vec<usize>)
    requires
        from <= to <= keys.len(),
    ensures
        orders(keys@, from as int, to as int, r@),
    decreases to - from,
{
    if to - from == 0 {
        return Vec::new();
    }
    if to - from == 1 {
        let r = vec![from];
        assert(r@[0] == from);
        return r;
    }
    let mid: usize = from + (to - from) / 2;
    let a = sort_range(keys, from, mid);
    let b = sort_range(keys, mid, to);
    merge(keys, &a, &b, from, mid, to)
}

/// The places of the entries of `keys` from the least key to the greatest,
/// equal keys in the order of their places.
pub fn sorted_places(keys: &Vec<i64>) -> (r: Vec<usize>)
    ensures
        orders(keys@, 0, keys@.len() as int, r@),
{
    sort_range(keys, 0, keys.len())
}

/// There is one such order only.
pub proof fn order_is_unique(keys: Seq<i64>, from: int, to: int, a: Seq<usize>, b: Seq<usize>)
    requires
        0 <= from <= to <= keys.len(),
        orders(keys, from, to, a),
        orders(keys, from, to, b),
    ensures
        a == b,
{
    assert forall|n: int| 0 <= n <= a.len() implies a.take(n) == b.take(n) by {
        same_prefix(keys, from, to, a, b, n);
    }
    assert(a.take(a.len() as int) =~= a);
    assert(b.take(b.len() as int) =~= b);
}

proof fn same_prefix(keys: Seq<i64>, from: int, to: int, a: Seq<usize>, b: Seq<usize>, n: int)
    requires
        0 <= from <= to <= keys.len(),
        orders(keys, from, to, a),
        orders(keys, from, to, b),
        0 <= n <= a.len(),
    ensures
        a.take(n) == b.take(n),
    decreases n,
{
    if n > 0 {
        same_prefix(keys, from, to, a, b, n - 1);
        let x = a[n - 1];
        let y = b[n - 1];
        assert forall|k: int| 0 <= k < n - 1 implies a[k] == b[k] by {
            assert(a.take(n - 1)[k] == b.take(n - 1)[k]);
        }
        assert(b.contains(x));
        assert(a.contains(y));
        let i = choose|i: int| 0 <= i < b.len() && b[i] == x;
        let j = choose|j: int| 0 <= j < a.len() && a[j] == y;
        if i < n - 1 {
            assert(precedes(keys, a[i] as int, a[n - 1] as int));
        }
        if j < n - 1 {
            assert(precedes(keys, b[j] as int, b[n - 1] as int));
        }
        if i > n - 1 && j > n - 1 {
            assert(precedes(keys, b[n - 1] as int, b[i] as int));
            assert(precedes(keys, a[n - 1] as int, a[j] as int));
        }
        assert(x == y);
        assert(a.take(n) =~= a.take(n - 1).push(x));
        assert(b.take(n) =~= b.take(n - 1).push(y));
    }
}

/// Whether text `x` of a list comes before text `y`: in the order of texts,
/// and where they are equal by its place.
pub open spec fn text_precedes(names: Seq<Seq<char>>, x: int, y: int) -> bool {
    before(names[x], names[y]) || (names[x] == names[y] && x < y)
}

/// Whether `order` lists the places of the first `n` texts, all of them and
/// each after those that precede it.
pub open spec fn orders_texts(names: Seq<Seq<char>>, n: int, order: Seq<usize>) -> bool {
    &&& order.len() == n
    &&& forall|i: int| 0 <= i < order.len() ==> 0 <= #[trigger] order[i] < n
    &&& forall|x: usize| 0 <= x < n ==> #[trigger] order.contains(x)
    &&& forall|i: int, j: int|
        #![trigger order[i], order[j]]
        0 <= i < j < order.len() ==> text_precedes(names, order[i] as int, order[j] as int)
}

/// The texts at the places that `order` lists.
pub open spec fn picked(names: Seq<Seq<char>>, order: Seq<usize>) -> Seq<Seq<char>> {
    order.map_values(|place: usize| names[place as int])
}

/// Texts picked in order ascend, and every place is picked once.
pub proof fn picked_texts_ascend(names: Seq<Seq<char>>, order: Seq<usize>, i: int, j: int)
    requires
        orders_texts(names, names.len() as int, order),
        0 <= i < j < names.len(),
    ensures
        !before(picked(names, order)[j], picked(names, order)[i]),
        order[i] != order[j],
{
    let (x, y) = (order[i] as int, order[j] as int);
    assert(text_precedes(names, x, y));
    before_is_strict(names[x], names[y]);
}

proof fn not_after_is_transitive(a: Seq<char>, b: Seq<char>, c: Seq<char>)
    requires
        !before(b, a),
        !before(c, b),
    ensures
        !before(c, a),
{
    before_is_strict(a, b);
    before_is_strict(b, c);
    before_is_strict(a, c);
    if a != b && b != c {
        before_is_transitive(a, b, c);
    }
}

/// How many of the listed texts do not come after `text`, which are the first
/// ones.
fn rank_among(names: &Vec<String>, order: &Vec<usize>, text: &str, Ghost(n): Ghost<int>) -> (r:
    usize)
    requires
        n <= names@.len(),
        orders_texts(texts(names@), n, order@),
    ensures
        r <= order@.len(),
        forall|k: int|
            0 <= k < r ==> !before(text@, names@[(#[trigger] order@[k]) as int]@),
        forall|k: int|
            r <= k < order@.len() ==> before(text@, names@[(#[trigger] order@[k]) as int]@),
{
    let mut low: usize = 0;
    let mut high: usize = order.len();
    while low < high
        invariant
            n <= names@.len(),
            orders_texts(texts(names@), n, order@),
            low <= high <= order@.len(),
            forall|k: int|
                0 <= k < low ==> !before(text@, names@[(#[trigger] order@[k]) as int]@),
            forall|k: int|
                high <= k < order@.len() ==> before(
                    text@,
                    names@[(#[trigger] order@[k]) as int]@,
                ),
        decreases high - low,
    {
        let mid: usize = low + (high - low) / 2;
        let ghost named = texts(names@);
        let ghost at = order@[mid as int] as int;
        assert(named[at] == names@[at]@);
        if comes_before(text, names[order[mid]].as_str()) {
            assert forall|k: int| mid <= k < order@.len() implies before(
                text@,
                names@[(#[trigger] order@[k]) as int]@,
            ) by {
                let x = order@[k] as int;
                assert(named[x] == names@[x]@);
                if k > mid {
                    assert(text_precedes(named, at, x));
                    if named[at] != named[x] {
                        before_is_transitive(text@, named[at], named[x]);
                    }
                }
            }
            high = mid;
        } else {
            assert forall|k: int| 0 <= k < mid + 1 implies !before(
                text@,
                names@[(#[trigger] order@[k]) as int]@,
            ) by {
                let x = order@[k] as int;
                assert(named[x] == names@[x]@);
                if k < mid {
                    assert(text_precedes(named, x, at));
                    before_is_strict(named[x], named[at]);
                    not_after_is_transitive(named[x], named[at], text@);
                }
            }
            low = mid + 1;
        }
    }
    low
}

/// The places of texts in the order of texts, equal ones in the order of
/// their places.
pub fn sorted_texts(names: &Vec<String>) -> (r: Vec<usize>)
    ensures
        orders_texts(texts(names@), names@.len() as int, r@),
{
    let mut order: Vec<usize> = Vec::new();
    let ghost named = texts(names@);
    for n in 0..names.len()
        invariant
            named == texts(names@),
            orders_texts(named, n as int, order@),
    {
        let at: usize = rank_among(names, &order, names[n].as_str(), Ghost(n as int));
        let ghost was = order@;
        order.insert(at, n);
        proof {
            let now = order@;
            assert(named[n as int] == names@[n as int]@);
            assert forall|i: int| 0 <= i < was.len() implies named[#[trigger] was[i] as int]
                == names@[was[i] as int]@ by {}
            assert forall|i: int| 0 <= i < now.len() implies 0 <= #[trigger] now[i] < n + 1 by {
                if i < at {
                    assert(now[i] == was[i]);
                } else if i > at {
                    assert(now[i] == was[i - 1]);
                }
            }
            assert forall|x: usize| 0 <= x < n + 1 implies #[trigger] now.contains(x) by {
                if x < n {
                    assert(was.contains(x));
                    let k = choose|k: int| 0 <= k < was.len() && was[k] == x;
                    if k < at {
                        assert(now[k] == x);
                    } else {
                        assert(now[k + 1] == x);
                    }
                } else {
                    assert(now[at as int] == x);
                }
            }
            assert forall|i: int, j: int|
                #![trigger now[i], now[j]]
                0 <= i < j < now.len() implies text_precedes(
                named,
                now[i] as int,
                now[j] as int,
            ) by {
                let p = if i < at {
                    i
                } else {
                    i - 1
                };
                let q = if j < at {
                    j
                } else {
                    j - 1
                };
                if i != at {
                    assert(now[i] == was[p]);
                }
                if j != at {
                    assert(now[j] == was[q]);
                }
                if i != at && j != at {
                    assert(text_precedes(named, was[p] as int, was[q] as int));
                } else if j == at {
                    assert(!before(named[n as int], named[was[p] as int]));
                    before_is_strict(named[was[p] as int], named[n as int]);
                } else {
                    assert(before(named[n as int], named[was[q] as int]));
                }
            }
        }
    }
    order
}

/// Keys taken in order never fall, equal keys keep their places, and no entry
/// is taken twice.
pub proof fn ordered_keys_never_fall(
    keys: Seq<i64>,
    from: int,
    to: int,
    order: Seq<usize>,
    i: int,
    j: int,
)
    requires
        orders(keys, from, to, order),
        0 <= i < j < order.len(),
    ensures
        keys[order[i] as int] <= keys[order[j] as int],
        keys[order[i] as int] == keys[order[j] as int] ==> order[i] < order[j],
        order[i] != order[j],
        from <= order[i] < to,
{
    assert(precedes(keys, order[i] as int, order[j] as int));
}

} // verus!
