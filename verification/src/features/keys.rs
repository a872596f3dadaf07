//! Which entries of a selection share a wire: formulas of one spelling do,
//! through the context that lowered them, and an entry wired by hand shares
//! its wire with no other.
//!
//! The key of an entry is its name with its formula, or with none where the
//! entry is wired by hand.
use vstd::prelude::*;

use crate::data::{all_in, named};
use crate::expr::{Context, ContextView, beyond, keeps_place, placed, places_tell_spellings};
use crate::features::common::{clashes, first_named};
use crate::graph::{Builder, Term, Vector, Wire};

verus! {

/// The keys of named formulas.
pub open spec fn formula_keys(list: Seq<(Seq<char>, Seq<char>)>) -> Seq<
    (Seq<char>, Option<Seq<char>>),
> {
    list.map_values(|f: (Seq<char>, Seq<char>)| (f.0, Some(f.1)))
}

/// The keys of entries wired by hand.
pub open spec fn hand_keys(list: Seq<(Seq<char>, Term)>) -> Seq<(Seq<char>, Option<Seq<char>>)> {
    list.map_values(|e: (Seq<char>, Term)| (e.0, None::<Seq<char>>))
}

/// The keys of a catalog, if it is selected.
pub open spec fn keys_if(
    selected: bool,
    keys: Seq<(Seq<char>, Option<Seq<char>>)>,
) -> Seq<(Seq<char>, Option<Seq<char>>)> {
    if selected {
        keys
    } else {
        seq![]
    }
}

/// The place of the first of the first `n` keys that is named `name`, or -1.
pub open spec fn first_key(
    keys: Seq<(Seq<char>, Option<Seq<char>>)>,
    name: Seq<char>,
    n: int,
) -> int
    decreases n,
{
    if n <= 0 {
        -1
    } else if first_key(keys, name, n - 1) >= 0 {
        first_key(keys, name, n - 1)
    } else if keys[n - 1].0 == name {
        n - 1
    } else {
        -1
    }
}

/// The names among the first `n` keys that stand for another feature than the
/// first key of that name: their formulas differ, or one of the two has none.
pub open spec fn name_clashes(
    keys: Seq<(Seq<char>, Option<Seq<char>>)>,
    n: int,
) -> Seq<Seq<char>>
    decreases n,
{
    if n <= 0 {
        seq![]
    } else {
        let k = first_key(keys, keys[n - 1].0, n - 1);
        if k >= 0 && (keys[n - 1].1 is None || keys[k].1 != keys[n - 1].1) {
            name_clashes(keys, n - 1).push(keys[n - 1].0)
        } else {
            name_clashes(keys, n - 1)
        }
    }
}

/// The names among keys that stand for different features.
pub open spec fn different(keys: Seq<(Seq<char>, Option<Seq<char>>)>) -> Seq<Seq<char>> {
    name_clashes(keys, keys.len() as int)
}

/// Whether no expression was lowered to the node at `at`.
pub open spec fn apart(v: ContextView, at: int) -> bool {
    forall|s: Seq<char>| #[trigger] v.lowered.dom().contains(s) ==> v.lowered[s].0 != at
}

/// Whether an entry has its name and its wire as its key says: a formula has
/// the wire of its spelling, an entry wired by hand that of no expression.
pub open spec fn stands(
    v: ContextView,
    entry: (String, Wire<Vector>),
    key: (Seq<char>, Option<Seq<char>>),
) -> bool {
    &&& entry.0@ == key.0
    &&& match key.1 {
        Some(s) => v.lowered.dom().contains(s) && v.lowered[s].0 == entry.1.at(),
        None => apart(v, entry.1.at()),
    }
}

/// Whether the entries have their wires as their keys say, those wired by
/// hand each one of its own.
pub open spec fn stand(
    v: ContextView,
    entries: Seq<(String, Wire<Vector>)>,
    keys: Seq<(Seq<char>, Option<Seq<char>>)>,
) -> bool {
    &&& entries.len() == keys.len()
    &&& forall|i: int| 0 <= i < entries.len() ==> stands(v, #[trigger] entries[i], keys[i])
    &&& forall|i: int, j: int|
        #![trigger entries[i], entries[j]]
        0 <= i < j < entries.len() && keys[i].1 is None && keys[j].1 is None
            ==> entries[i].1.at() != entries[j].1.at()
}

/// Whether the entries from `from` on have nodes of their own, from place
/// `low` on.
pub open spec fn rising(entries: Seq<(String, Wire<Vector>)>, from: int, low: int) -> bool {
    &&& forall|i: int| from <= i < entries.len() ==> low <= (#[trigger] entries[i]).1.at()
    &&& forall|i: int, j: int|
        #![trigger entries[i], entries[j]]
        from <= i < j < entries.len() ==> entries[i].1.at() < entries[j].1.at()
}

/// Whether every entry has its node before place `high`.
pub open spec fn under(entries: Seq<(String, Wire<Vector>)>, high: int) -> bool {
    forall|i: int| 0 <= i < entries.len() ==> (#[trigger] entries[i]).1.at() < high
}

/// The entries of a graph have their nodes inside it.
pub(crate) proof fn inside_is_under(b: Builder, entries: Seq<(String, Wire<Vector>)>)
    requires
        all_in(b, entries),
    ensures
        under(entries, b.nodes().len() as int),
{
    assert forall|i: int| 0 <= i < entries.len() implies (#[trigger] entries[i]).1.at()
        < b.nodes().len() by {
        b.wires_point_inside(entries[i].1);
    }
}

/// Formulas have the wires of their spellings.
pub(crate) proof fn formulas_stand(
    v: ContextView,
    entries: Seq<(String, Wire<Vector>)>,
    list: Seq<(Seq<char>, Seq<char>)>,
)
    requires
        placed(v, list, entries),
        forall|i: int| 0 <= i < entries.len() ==> (#[trigger] entries[i]).0@ == list[i].0,
    ensures
        stand(v, entries, formula_keys(list)),
{
    assert forall|i: int| 0 <= i < entries.len() implies stands(
        v,
        #[trigger] entries[i],
        formula_keys(list)[i],
    ) by {
        assert(formula_keys(list)[i] == (list[i].0, Some(list[i].1)));
    }
}

/// Entries wired by hand, each with a node of its own that is no
/// expression's, stand.
pub(crate) proof fn hands_stand(
    v: ContextView,
    entries: Seq<(String, Wire<Vector>)>,
    keys: Seq<(Seq<char>, Option<Seq<char>>)>,
    low: int,
    high: int,
)
    requires
        entries.len() == keys.len(),
        forall|i: int|
            0 <= i < entries.len() ==> (#[trigger] entries[i]).0@ == keys[i].0 && keys[i].1 is None,
        rising(entries, 0, low),
        under(entries, high),
        forall|s: Seq<char>| #[trigger]
            v.lowered.dom().contains(s) ==> v.lowered[s].0 < low || v.lowered[s].0 >= high,
    ensures
        stand(v, entries, keys),
{
    assert forall|i: int| 0 <= i < entries.len() implies stands(
        v,
        #[trigger] entries[i],
        keys[i],
    ) by {
        assert(apart(v, entries[i].1.at()));
    }
}

/// Entries that stand still do when more is lowered behind them.
pub(crate) proof fn entries_stay(
    after: ContextView,
    before: ContextView,
    entries: Seq<(String, Wire<Vector>)>,
    keys: Seq<(Seq<char>, Option<Seq<char>>)>,
    from: int,
)
    requires
        stand(before, entries, keys),
        forall|s: Seq<char>| #[trigger] keeps_place(after, before, s),
        beyond(after, before, from),
        under(entries, from),
    ensures
        stand(after, entries, keys),
{
    assert forall|i: int| 0 <= i < entries.len() implies stands(
        after,
        #[trigger] entries[i],
        keys[i],
    ) by {
        assert(stands(before, entries[i], keys[i]));
        match keys[i].1 {
            Some(s) => {
                assert(keeps_place(after, before, s));
            },
            None => {
                let at = entries[i].1.at();
                assert(apart(before, at));
                assert forall|s: Seq<char>| #[trigger]
                    after.lowered.dom().contains(s) implies after.lowered[s].0 != at by {
                    assert(keeps_place(after, before, s));
                    if before.lowered.dom().contains(s) {
                        assert(after.lowered[s] == before.lowered[s]);
                    }
                }
                assert(apart(after, at));
            },
        }
    }
}

/// Two lists that stand do so joined, the nodes wired by hand in the first
/// all before those in the second.
pub(crate) proof fn joined_stand(
    v: ContextView,
    a: Seq<(String, Wire<Vector>)>,
    a_keys: Seq<(Seq<char>, Option<Seq<char>>)>,
    c: Seq<(String, Wire<Vector>)>,
    c_keys: Seq<(Seq<char>, Option<Seq<char>>)>,
    mid: int,
)
    requires
        stand(v, a, a_keys),
        stand(v, c, c_keys),
        forall|i: int|
            0 <= i < a.len() && a_keys[i].1 is None ==> (#[trigger] a[i]).1.at() < mid,
        forall|i: int|
            0 <= i < c.len() && c_keys[i].1 is None ==> mid <= (#[trigger] c[i]).1.at(),
    ensures
        stand(v, a + c, a_keys + c_keys),
{
    let both = a + c;
    let keys = a_keys + c_keys;
    assert forall|i: int| 0 <= i < both.len() implies stands(v, #[trigger] both[i], keys[i]) by {
        if i < a.len() {
            assert(both[i] == a[i] && keys[i] == a_keys[i]);
        } else {
            assert(both[i] == c[i - a.len()] && keys[i] == c_keys[i - a.len()]);
        }
    }
    assert forall|i: int, j: int|
        #![trigger both[i], both[j]]
        0 <= i < j < both.len() && keys[i].1 is None && keys[j].1 is None implies both[i].1.at()
        != both[j].1.at() by {
        if j < a.len() {
            assert(both[i] == a[i] && both[j] == a[j]);
            assert(keys[i] == a_keys[i] && keys[j] == a_keys[j]);
        } else if i < a.len() {
            assert(both[i] == a[i] && both[j] == c[j - a.len()]);
            assert(keys[i] == a_keys[i] && keys[j] == c_keys[j - a.len()]);
        } else {
            assert(both[i] == c[i - a.len()] && both[j] == c[j - a.len()]);
            assert(keys[i] == c_keys[i - a.len()] && keys[j] == c_keys[j - a.len()]);
        }
    }
}

/// Entries that stand still do with entries wired by hand behind them, whose
/// nodes come after all that was lowered.
pub(crate) proof fn more_stand(
    v: ContextView,
    a: Seq<(String, Wire<Vector>)>,
    a_keys: Seq<(Seq<char>, Option<Seq<char>>)>,
    both: Seq<(String, Wire<Vector>)>,
    list: Seq<(Seq<char>, Term)>,
    low: int,
    high: int,
)
    requires
        stand(v, a, a_keys),
        both.take(a.len() as int) == a,
        named(both) == named(a) + list,
        rising(both, a.len() as int, low),
        under(a, low),
        under(both, high),
        forall|s: Seq<char>| #[trigger] v.lowered.dom().contains(s) ==> v.lowered[s].0 < low,
    ensures
        stand(v, both, a_keys + hand_keys(list)),
{
    let n = a.len() as int;
    assert(named(both).len() == both.len() && named(a).len() == a.len());
    let more = both.skip(n);
    assert forall|i: int| 0 <= i < more.len() implies (#[trigger] more[i]).0@ == hand_keys(
        list,
    )[i].0 && hand_keys(list)[i].1 is None && low <= more[i].1.at() < high by {
        assert(more[i] == both[n + i]);
        assert(named(both)[n + i].0 == both[n + i].0@);
        assert(named(both)[n + i] == list[i]);
    }
    assert forall|i: int, j: int|
        #![trigger more[i], more[j]]
        0 <= i < j < more.len() implies more[i].1.at() < more[j].1.at() by {
        assert(more[i] == both[n + i] && more[j] == both[n + j]);
    }
    hands_stand(v, more, hand_keys(list), low, high);
    joined_stand(v, a, a_keys, more, hand_keys(list), low);
    assert(both =~= a + more);
}

proof fn first_by_key(
    v: ContextView,
    entries: Seq<(String, Wire<Vector>)>,
    keys: Seq<(Seq<char>, Option<Seq<char>>)>,
    name: Seq<char>,
    n: int,
)
    requires
        stand(v, entries, keys),
        n <= entries.len(),
    ensures
        first_named(entries, name, n) == first_key(keys, name, n),
        first_key(keys, name, n) < n || n < 0,
    decreases n,
{
    if n > 0 {
        first_by_key(v, entries, keys, name, n - 1);
        assert(stands(v, entries[n - 1], keys[n - 1]));
    }
}

/// The names that stand for different wires are those that stand for
/// different features.
pub(crate) proof fn clashes_by_key(
    ctx: Context,
    entries: Seq<(String, Wire<Vector>)>,
    keys: Seq<(Seq<char>, Option<Seq<char>>)>,
    n: int,
)
    requires
        ctx.well_formed(),
        stand(ctx@, entries, keys),
        0 <= n <= entries.len(),
    ensures
        clashes(entries, n) == name_clashes(keys, n),
    decreases n,
{
    if n > 0 {
        clashes_by_key(ctx, entries, keys, n - 1);
        assert(stands(ctx@, entries[n - 1], keys[n - 1]));
        first_by_key(ctx@, entries, keys, keys[n - 1].0, n - 1);
        let k = first_key(keys, keys[n - 1].0, n - 1);
        if k >= 0 {
            let (e, f) = (entries[k], entries[n - 1]);
            assert(stands(ctx@, e, keys[k]));
            match (keys[k].1, keys[n - 1].1) {
                (Some(s), Some(t)) => {
                    if e.1.at() == f.1.at() {
                        places_tell_spellings(ctx, s, t);
                    }
                },
                (Some(s), None) => {
                    assert(ctx@.lowered.dom().contains(s));
                },
                (None, Some(t)) => {
                    assert(ctx@.lowered.dom().contains(t));
                },
                (None, None) => {},
            }
        }
    }
}

/// A name clashes exactly when it stands for two different features: an entry
/// has the name of an earlier one, and another formula than the first of that
/// name, or none.
pub proof fn a_clash_is_of_different_features(
    keys: Seq<(Seq<char>, Option<Seq<char>>)>,
    n: int,
    name: Seq<char>,
)
    requires
        0 <= n <= keys.len(),
    ensures
        name_clashes(keys, n).contains(name) <==> exists|i: int, j: int|
            0 <= i < j < n && (#[trigger] keys[i]).0 == name && (#[trigger] keys[j]).0 == name && (
            forall|k: int| 0 <= k < i ==> (#[trigger] keys[k]).0 != name) && (keys[j].1 is None
                || keys[i].1 != keys[j].1),
    decreases n,
{
    if n > 0 {
        a_clash_is_of_different_features(keys, n - 1, name);
        let last = keys[n - 1];
        let k = first_key(keys, last.0, n - 1);
        first_keys_come_first(keys, last.0, n - 1);
        let now = name_clashes(keys, n);
        let before = name_clashes(keys, n - 1);
        if k >= 0 && (last.1 is None || keys[k].1 != last.1) {
            assert(now == before.push(last.0));
            assert(now.last() == last.0);
            if before.contains(name) {
                let x = choose|x: int| 0 <= x < before.len() && before[x] == name;
                assert(now[x] == name);
            }
            if last.0 == name {
                assert(keys[k].0 == name && keys[n - 1].0 == name);
            } else if now.contains(name) {
                let x = choose|x: int| 0 <= x < now.len() && now[x] == name;
                assert(before[x] == name);
            }
        }
        if exists|i: int, j: int|
            0 <= i < j < n && (#[trigger] keys[i]).0 == name && (#[trigger] keys[j]).0 == name && (
            forall|k: int| 0 <= k < i ==> (#[trigger] keys[k]).0 != name) && (keys[j].1 is None
                || keys[i].1 != keys[j].1) {
            let (i, j) = choose|i: int, j: int|
                0 <= i < j < n && (#[trigger] keys[i]).0 == name && (#[trigger] keys[j]).0 == name
                    && (forall|k: int| 0 <= k < i ==> (#[trigger] keys[k]).0 != name) && (
                keys[j].1 is None || keys[i].1 != keys[j].1);
            if j == n - 1 {
                assert(last.0 == name);
                assert(k == i);
            } else {
                assert(before.contains(name));
            }
        }
    }
}

proof fn first_keys_come_first(
    keys: Seq<(Seq<char>, Option<Seq<char>>)>,
    name: Seq<char>,
    n: int,
)
    requires
        0 <= n <= keys.len(),
    ensures
        ({
            let k = first_key(keys, name, n);
            &&& -1 <= k < n || (n == 0 && k == -1)
            &&& k >= 0 ==> keys[k].0 == name && forall|i: int|
                0 <= i < k ==> (#[trigger] keys[i]).0 != name
            &&& k < 0 ==> forall|i: int| 0 <= i < n ==> (#[trigger] keys[i]).0 != name
        }),
    decreases n,
{
    if n > 0 {
        first_keys_come_first(keys, name, n - 1);
    }
}

} // verus!
