//! The feature panel of the Markowitz strategy. Every feature is winsorized
//! at its 1% tails and its missing values are filled with the mean of the
//! rest; the mean predictor standardizes what it reads.
use vstd::prelude::*;

use crate::data::{MarketData, MarketView, named};
use crate::expr::{keeps_place, lowered_inside};
use crate::features::basic::{BASIC_FIELDS, basic_catalog, build_features_basic};
use crate::features::common::{Features, append, dedup_entries};
use crate::features::context::price_context;
use crate::features::keys::{
    clashes_by_key, different, formula_keys, formulas_stand, hand_keys, hands_stand, joined_stand,
    keys_if, stand,
};
use crate::features::panels::{
    Catalog, CatalogView, Finish, all_finished, build_formulas, distinct, finish_all,
    formula_entries, formula_names, given, joined_belong, kept_belongs, kept_by_terms, listed_if,
    selected_formulas, stack_up,
};
use crate::features::sets::{FeatureSet, selects};
use crate::graph::{Builder, Term, Vector, Wire};
use crate::text::{debug_form, debug_text};
use crate::features::panels::names_of;
use crate::graph::texts;

verus! {

/// The raw entries of a selection: the baseline catalog, then the formula
/// catalogs.
pub open spec fn entries_of(
    m: MarketView,
    sets: Seq<FeatureSet>,
    catalog: CatalogView,
) -> Seq<(Seq<char>, Term)> {
    listed_if(sets.contains(FeatureSet::Basic), basic_catalog(m)) + formula_entries(
        m,
        sets.contains(FeatureSet::Alpha101),
        sets.contains(FeatureSet::Alpha158),
        sets.contains(FeatureSet::Alpha360),
        catalog,
    )
}

/// The names of a selection's entries, each with its formula; an entry of the
/// baseline catalog has none.
pub open spec fn keys_of(
    m: MarketView,
    sets: Seq<FeatureSet>,
    catalog: CatalogView,
) -> Seq<(Seq<char>, Option<Seq<char>>)> {
    keys_if(sets.contains(FeatureSet::Basic), hand_keys(basic_catalog(m))) + formula_keys(
        selected_formulas(
            sets.contains(FeatureSet::Alpha101),
            sets.contains(FeatureSet::Alpha158),
            sets.contains(FeatureSet::Alpha360),
            catalog,
        ),
    )
}

/// Why a feature panel cannot be built.
#[derive(Debug)]
pub enum FeatureError {
    /// The selection has no features.
    NoneSelected,
    /// Two different features have this name.
    NameClash(String),
}

impl FeatureError {
    /// The message about the error.
    pub open spec fn message(self) -> Seq<char> {
        match self {
            FeatureError::NoneSelected => "no features selected"@,
            FeatureError::NameClash(name) => "two different features are both named "@
                + debug_form(name@),
        }
    }

    /// The message about the error.
    pub fn text(&self) -> (r: String)
        ensures
            r@ == self.message(),
    {
        match self {
            FeatureError::NoneSelected => "no features selected".to_string(),
            FeatureError::NameClash(name) => "two different features are both named ".to_string().concat(
                debug_text(name.as_str()).as_str(),
            ),
        }
    }
}

/// Whether `r` is what becomes of a selection: it is refused when it has no
/// features, or when two different features have one name; otherwise its
/// features are winsorized, imputed and stacked, each name once.
pub open spec fn builds(
    b: Builder,
    m: MarketView,
    sets: Seq<FeatureSet>,
    catalog: CatalogView,
    r: Result<Features, FeatureError>,
) -> bool {
    let entries = entries_of(m, sets, catalog);
    let clashing = different(keys_of(m, sets, catalog));
    if entries.len() == 0 {
        r matches Err(FeatureError::NoneSelected)
    } else if clashing.len() > 0 {
        r matches Err(FeatureError::NameClash(name)) && name@ == clashing[0]
    } else {
        r matches Ok(f) && f.shows(b, all_finished(Finish::Impute, distinct(entries)), m.n)
    }
}

/// Builds the feature panel from the selected sets, every entry winsorized
/// and imputed, and stacked. `catalog` is the Alpha101 catalog, needed when it
/// is selected.
///
/// Features of one name must share their wire, as the four that Alpha158 and
/// Alpha360 have in common do; the first is kept.
pub fn build_features(
    b: &mut Builder,
    m: &MarketData,
    sets: &Vec<FeatureSet>,
    catalog: Option<Catalog>,
) -> (r: Result<Features, FeatureError>)
    requires
        old(b).ordered(),
        m.belongs(*old(b)),
        sets@.contains(FeatureSet::Basic) ==> m@.has_all(BASIC_FIELDS@),
        sets@.contains(FeatureSet::Alpha101) ==> catalog is Some,
        sets@.contains(FeatureSet::Alpha101) ==> catalog->0.ctx.belongs(*old(b)),
    ensures
        final(b).grown(*old(b)),
        builds(*final(b), m@, sets@, given(catalog), r),
{
    let ghost cat = given(catalog);
    let ghost b0 = *b;
    let basic = selects(sets, FeatureSet::Basic);
    let alpha101 = selects(sets, FeatureSet::Alpha101);
    let alpha158 = selects(sets, FeatureSet::Alpha158);
    let alpha360 = selects(sets, FeatureSet::Alpha360);
    let mut entries: Vec<(String, Wire<Vector>)> = Vec::new();
    assert(named(entries@) =~= seq![]);
    if basic {
        entries = build_features_basic(b, m);
    }
    let ghost own = entries@;
    let ghost b1 = *b;
    assert(named(own) =~= listed_if(basic, basic_catalog(m@)));
    let ghost own_keys = keys_if(basic, hand_keys(basic_catalog(m@)));
    let ghost before = if alpha101 {
        cat.ctx
    } else {
        price_context(m@)
    };
    proof {
        if alpha101 {
            lowered_inside(catalog->0.ctx, b0);
        }
        assert forall|i: int| 0 <= i < own.len() implies b0.nodes().len() <= (
        #[trigger] own[i]).1.at() < b1.nodes().len() by {
            b1.wires_point_inside(own[i].1);
        }
    }
    let (ctx, rest) = build_formulas(b, m, alpha101, alpha158, alpha360, catalog);
    proof {
        let formulas = selected_formulas(alpha101, alpha158, alpha360, cat);
        joined_belong(*b, own, rest@);
        formula_names(m@, alpha101, alpha158, alpha360, cat);
        assert forall|i: int| 0 <= i < rest@.len() implies (#[trigger] rest@[i]).0@
            == formulas[i].0 by {
            assert(named(rest@)[i].0 == formulas[i].0);
        }
        let (low, high) = (b0.nodes().len() as int, b1.nodes().len() as int);
        assert forall|s: Seq<char>| #[trigger]
            ctx@.lowered.dom().contains(s) implies ctx@.lowered[s].0 < low
            || ctx@.lowered[s].0 >= high by {
            assert(keeps_place(ctx@, before, s));
        }
        assert forall|i: int| 0 <= i < own.len() implies (#[trigger] own[i]).0@ == own_keys[i].0
            && own_keys[i].1 is None by {
            assert(named(own)[i].0 == own[i].0@);
        }
        hands_stand(ctx@, own, own_keys, low, high);
        formulas_stand(ctx@, rest@, formulas);
        joined_stand(ctx@, own, own_keys, rest@, formula_keys(formulas), high);
    }
    append(&mut entries, rest);
    let ghost keys = keys_of(m@, sets@, cat);
    assert(stand(ctx@, entries@, keys));
    assert(named(entries@) =~= entries_of(m@, sets@, cat));
    if entries.len() == 0 {
        return Err(FeatureError::NoneSelected);
    }
    let ghost all = entries@;
    let clashing = dedup_entries(&mut entries);
    proof {
        clashes_by_key(ctx, all, keys, all.len() as int);
        kept_by_terms(all, all.len() as int);
        kept_belongs(*b, all, all.len() as int);
    }
    if clashing.len() > 0 {
        let first = clashing[0].clone();
        return Err(FeatureError::NameClash(first));
    }
    let columns = finish_all(b, Finish::Impute, &entries);
    Ok(stack_up(b, m.n, &columns))
}

/// A selection is refused exactly when it has no features or when one name
/// stands for two of them, and otherwise shows each name once.
pub proof fn a_selection_is_shown_or_refused(
    b: Builder,
    m: MarketView,
    sets: Seq<FeatureSet>,
    catalog: CatalogView,
    r: Result<Features, FeatureError>,
)
    requires
        builds(b, m, sets, catalog, r),
    ensures
        r is Err <==> entries_of(m, sets, catalog).len() == 0 || different(
            keys_of(m, sets, catalog),
        ).len() > 0,
        sets.len() == 0 ==> r is Err,
        r is Ok ==> r->Ok_0.schema@.len() == distinct(entries_of(m, sets, catalog)).len(),
{
    if sets.len() == 0 {
        assert(!sets.contains(FeatureSet::Basic));
        assert(!sets.contains(FeatureSet::Alpha101));
        assert(!sets.contains(FeatureSet::Alpha158));
        assert(!sets.contains(FeatureSet::Alpha360));
        assert(entries_of(m, sets, catalog).len() == 0);
    }
    if r is Ok {
        let f = r->Ok_0;
        let columns = all_finished(Finish::Impute, distinct(entries_of(m, sets, catalog)));
        assert(texts(f.schema@).len() == names_of(columns).len());
    }
}

} // verus!
