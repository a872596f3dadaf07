//! Industry dummy exposures: one static `0/1` column per distinct industry
//! tag of the symbol list, named `IND_<tag>`. Stocks with an empty tag load
//! on no industry. The columns are stacked into the risk panel as they are.
use vstd::prelude::*;

use crate::data::{all_in, named};
use crate::graph::{Builder, Term, Vector, Wire, texts};
use crate::ops::indicator;
use crate::text::{
    before, before_is_strict, before_is_transitive, comes_before, same_text,
};

verus! {

/// Whether each text comes before the next ones.
pub open spec fn ascending(tags: Seq<Seq<char>>) -> bool {
    forall|i: int, j: int|
        #![trigger tags[i], tags[j]]
        0 <= i < j < tags.len() ==> before(tags[i], tags[j])
}

/// Whether `tags` lists the distinct non-empty tags, in the order of texts.
pub open spec fn lists_tags(industries: Seq<Seq<char>>, tags: Seq<Seq<char>>) -> bool {
    &&& ascending(tags)
    &&& forall|tag: Seq<char>| #[trigger]
        tags.contains(tag) <==> industries.contains(tag) && tag.len() > 0
}

/// Which stocks carry the tag.
pub open spec fn members(industries: Seq<Seq<char>>, tag: Seq<char>) -> Seq<bool> {
    industries.map_values(|t: Seq<char>| t == tag)
}

/// The dummy columns of the tags, in their order.
pub open spec fn dummies(industries: Seq<Seq<char>>, tags: Seq<Seq<char>>) -> Seq<
    (Seq<char>, Term),
> {
    tags.map_values(
        |tag: Seq<char>| ("IND_"@ + tag, indicator(members(industries, tag))),
    )
}

/// Puts a tag into its place in an ascending list, unless it is there.
fn insert_tag(tags: &mut Vec<String>, tag: &String)
    requires
        ascending(texts(old(tags)@)),
    ensures
        ascending(texts(final(tags)@)),
        forall|t: Seq<char>| #[trigger]
            texts(final(tags)@).contains(t) <==> texts(old(tags)@).contains(t) || t == tag@,
{
    let ghost was = texts(tags@);
    let mut p: usize = 0;
    while p < tags.len() && comes_before(tags[p].as_str(), tag.as_str())
        invariant
            tags@ == old(tags)@,
            was == texts(tags@),
            p <= tags@.len(),
            forall|k: int| 0 <= k < p ==> before(#[trigger] was[k], tag@),
        decreases tags@.len() - p,
    {
        p += 1;
    }
    if p < tags.len() && same_text(tags[p].as_str(), tag.as_str()) {
        assert(was[p as int] == tag@);
        return;
    }
    proof {
        if p < tags@.len() {
            assert(was[p as int] == tags@[p as int]@);
            before_is_strict(was[p as int], tag@);
            assert forall|k: int| p <= k < was.len() implies before(tag@, #[trigger] was[k]) by {
                if k > p {
                    assert(before(was[p as int], was[k]));
                    before_is_transitive(tag@, was[p as int], was[k]);
                }
            }
        }
    }
    tags.insert(p, tag.clone());
    proof {
        let now = texts(tags@);
        assert(now =~= was.insert(p as int, tag@));
        assert forall|i: int, j: int|
            #![trigger now[i], now[j]]
            0 <= i < j < now.len() implies before(now[i], now[j]) by {
            let a = if i < p { i } else { i - 1 };
            let c = if j < p { j } else { j - 1 };
            if i != p {
                assert(now[i] == was[a]);
            }
            if j != p {
                assert(now[j] == was[c]);
            }
        }
        assert forall|t: Seq<char>| #[trigger] now.contains(t) <==> was.contains(t) || t
            == tag@ by {
            if was.contains(t) {
                let k = choose|k: int| 0 <= k < was.len() && was[k] == t;
                if k < p {
                    assert(now[k] == t);
                } else {
                    assert(now[k + 1] == t);
                }
            }
            if t == tag@ {
                assert(now[p as int] == t);
            }
            if now.contains(t) {
                let k = choose|k: int| 0 <= k < now.len() && now[k] == t;
                if k < p {
                    assert(was[k] == t);
                } else if k > p {
                    assert(was[k - 1] == t);
                }
            }
        }
    }
}

/// The distinct non-empty tags, in the order of texts.
pub fn distinct_tags(industries: &Vec<String>) -> (r: Vec<String>)
    ensures
        lists_tags(texts(industries@), texts(r@)),
{
    let mut tags: Vec<String> = Vec::new();
    let ghost all = texts(industries@);
    for i in 0..industries.len()
        invariant
            all == texts(industries@),
            lists_tags(all.take(i as int), texts(tags@)),
    {
        let ghost seen = all.take(i as int);
        let tag = &industries[i];
        assert(all.take(i + 1) =~= seen.push(tag@));
        let empty = same_text(tag.as_str(), "");
        proof {
            reveal_strlit("");
            if tag@.len() == 0 {
                assert(tag@ =~= ""@);
            }
            assert forall|t: Seq<char>| #[trigger]
                all.take(i + 1).contains(t) <==> seen.contains(t) || t == tag@ by {
                if seen.contains(t) {
                    let k = choose|k: int| 0 <= k < seen.len() && seen[k] == t;
                    assert(all.take(i + 1)[k] == t);
                }
                assert(all.take(i + 1)[i as int] == tag@);
            }
        }
        if !empty {
            insert_tag(&mut tags, tag);
        }
    }
    assert(all.take(industries@.len() as int) =~= all);
    tags
}

/// Builds the industry dummy columns from the per-symbol tags, one
/// `(name, constant wire)` entry per distinct non-empty tag, in tag order.
pub fn build_features_industry(b: &mut Builder, industries: &Vec<String>) -> (r: Vec<
    (String, Wire<Vector>),
>)
    requires
        old(b).ordered(),
    ensures
        final(b).grown(*old(b)),
        all_in(*final(b), r@),
        exists|tags: Seq<Seq<char>>| #[trigger]
            lists_tags(texts(industries@), tags) && named(r@) == dummies(texts(industries@), tags),
{
    let tags = distinct_tags(industries);
    let ghost all = texts(industries@);
    let mut entries: Vec<(String, Wire<Vector>)> = Vec::new();
    for i in 0..tags.len()
        invariant
            all == texts(industries@),
            b.grown(*old(b)),
            all_in(*b, entries@),
            entries@.len() == i,
            forall|k: int|
                0 <= k < i ==> #[trigger] named(entries@)[k] == dummies(all, texts(tags@))[k],
    {
        let tag = &tags[i];
        let mut flags: Vec<bool> = Vec::new();
        for j in 0..industries.len()
            invariant
                all == texts(industries@),
                flags@.len() == j,
                forall|k: int| 0 <= k < j ==> #[trigger] flags@[k] == (all[k] == tag@),
        {
            flags.push(same_text(industries[j].as_str(), tag.as_str()));
        }
        assert(flags@ =~= members(all, tag@));
        let ghost so_far = named(entries@);
        let h = b.indicator(flags);
        entries.push(("IND_".to_string().concat(tag.as_str()), h));
        proof {
            assert forall|k: int| 0 <= k < i + 1 implies #[trigger] named(entries@)[k] == dummies(
                all,
                texts(tags@),
            )[k] by {
                if k < i {
                    assert(named(entries@)[k] == so_far[k]);
                }
            }
        }
    }
    assert(named(entries@) =~= dummies(all, texts(tags@)));
    entries
}

/// There is one list of the tags only.
pub proof fn the_tags_are_told(
    industries: Seq<Seq<char>>,
    a: Seq<Seq<char>>,
    b: Seq<Seq<char>>,
)
    requires
        lists_tags(industries, a),
        lists_tags(industries, b),
    ensures
        a == b,
{
    ascending_lists_agree(a, b);
}

proof fn ascending_lists_agree(a: Seq<Seq<char>>, b: Seq<Seq<char>>)
    requires
        ascending(a),
        ascending(b),
        forall|t: Seq<char>| #[trigger] a.contains(t) <==> b.contains(t),
    ensures
        a == b,
    decreases a.len() + b.len(),
{
    if a.len() == 0 {
        if b.len() > 0 {
            assert(b.contains(b[0]));
            assert(a.contains(b[0]));
        }
        assert(a =~= b);
    } else {
        assert(a.contains(a.last()));
        assert(b.contains(a.last()));
        let i = choose|i: int| 0 <= i < b.len() && b[i] == a.last();
        assert(b.contains(b.last()));
        assert(a.contains(b.last()));
        let j = choose|j: int| 0 <= j < a.len() && a[j] == b.last();
        if i < b.len() - 1 && j < a.len() - 1 {
            assert(before(b[i], b[b.len() - 1]));
            assert(before(a[j], a[a.len() - 1]));
            before_is_strict(a.last(), b.last());
        }
        assert(a.last() == b.last());
        let x = a.drop_last();
        let y = b.drop_last();
        assert forall|t: Seq<char>| #[trigger] x.contains(t) <==> y.contains(t) by {
            before_is_strict(t, t);
            if x.contains(t) {
                let k = choose|k: int| 0 <= k < x.len() && x[k] == t;
                assert(a[k] == t);
                assert(before(a[k], a[a.len() - 1]));
                assert(a.contains(t));
                let l = choose|l: int| 0 <= l < b.len() && b[l] == t;
                assert(l < b.len() - 1);
                assert(y[l] == t);
            }
            if y.contains(t) {
                let k = choose|k: int| 0 <= k < y.len() && y[k] == t;
                assert(b[k] == t);
                assert(before(b[k], b[b.len() - 1]));
                assert(b.contains(t));
                assert(a.contains(t));
                let l = choose|l: int| 0 <= l < a.len() && a[l] == t;
                assert(l < a.len() - 1);
                assert(x[l] == t);
            }
        }
        assert(ascending(x)) by {
            assert forall|i: int, j: int|
                #![trigger x[i], x[j]]
                0 <= i < j < x.len() implies before(x[i], x[j]) by {
                assert(before(a[i], a[j]));
            }
        }
        assert(ascending(y)) by {
            assert forall|i: int, j: int|
                #![trigger y[i], y[j]]
                0 <= i < j < y.len() implies before(y[i], y[j]) by {
                assert(before(b[i], b[j]));
            }
        }
        ascending_lists_agree(x, y);
        assert(a =~= x.push(a.last()));
        assert(b =~= y.push(b.last()));
    }
}

/// Each stock loads on one industry at most, and on none without a tag.
pub proof fn a_stock_has_one_industry(
    industries: Seq<Seq<char>>,
    tags: Seq<Seq<char>>,
    stock: int,
    i: int,
    j: int,
)
    requires
        lists_tags(industries, tags),
        0 <= stock < industries.len(),
        0 <= i < tags.len(),
        0 <= j < tags.len(),
        members(industries, tags[i])[stock],
        members(industries, tags[j])[stock],
    ensures
        i == j,
        industries[stock].len() > 0,
{
    if i < j {
        assert(before(tags[i], tags[j]));
        before_is_strict(tags[i], tags[j]);
    } else if j < i {
        assert(before(tags[j], tags[i]));
        before_is_strict(tags[j], tags[i]);
    }
    assert(tags.contains(tags[i]));
}

/// A stock with a tag loads on the column of that tag.
pub proof fn a_tag_has_a_column(
    industries: Seq<Seq<char>>,
    tags: Seq<Seq<char>>,
    stock: int,
) -> (i: int)
    requires
        lists_tags(industries, tags),
        0 <= stock < industries.len(),
        industries[stock].len() > 0,
    ensures
        0 <= i < tags.len(),
        members(industries, tags[i])[stock],
{
    assert(industries.contains(industries[stock]));
    assert(tags.contains(industries[stock]));
    choose|i: int| 0 <= i < tags.len() && tags[i] == industries[stock]
}

} // verus!
