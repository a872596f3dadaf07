//! The feature panels: the selected catalogs, finalized entry by entry and
//! stacked into the panels that the models read.
//!
//! Every feature reaches a model on a scale of its own kind: normalized for
//! the factor models, winsorized and imputed for the Markowitz strategy. The
//! risk panel always carries a `COUNTRY` intercept of ones, and the industry
//! dummies when they are selected; these columns are not finalized, since a
//! `0/1` indicator is on scale already.
use vstd::prelude::*;

use crate::data::{MarketData, MarketView, all_in, named};
use crate::double::Double;
use crate::expr::{
    Context, ContextView, alike, alike_is_transitive, alike_readings, alike_when_all_lowered,
    beyond, beyond_is_transitive, extending_is_transitive, extends, keeps_place, lower_all,
    lowered_inside, placed, places_stay, readings, with_all_lowered,
};
use crate::features::alpha158::{alpha158_list, build_features_alpha158};
use crate::features::alpha360::{alpha360_list, build_features_alpha360};
use crate::features::barra::{
    BARRA_FIELDS, barra_catalog, barra_keys, barra_of_alike, build_features_barra,
};
use crate::features::chip::ONE;
use crate::features::cicc_fund::{FUND_FIELDS, build_features_cicc_fund, fund_catalog};
use crate::features::cicc_pv::{
    build_features_cicc_pv, volume_catalog, volume_context, volume_keys, volume_lowered,
    volume_of_alike,
};
use crate::features::common::{
    Features, append, clashes, dedup_entries, enlist, first_named, first_of_each, imputed,
    normalize, normalized, winsorize_impute,
};
use crate::features::context::{build_price_context, price_context};
use crate::features::formula::spelled;
use crate::features::industry::{build_features_industry, dummies, lists_tags};
use crate::features::keys::{
    clashes_by_key, different, entries_stay, formula_keys, formulas_stand, hand_keys, hands_stand,
    inside_is_under, joined_stand, keys_if, stand,
};
use crate::features::sets::{AlphaFeatureSet, RiskFeatureSet, selects_alpha, selects_risk};
use crate::graph::{
    Builder, Matrix, Op, Term, Unary, Vector, Wire, plain, terms, texts, unary,
};
use crate::features::common::{a_normalized_feature_is_bounded, imputing_fills_with_the_mean};
use crate::graph::PayloadView;
use crate::meaning::{Run, cross, known, num, patterns_are_numbers, present, value};

verus! {

/// A catalog of formulas, with the context of the fields it reads. The
/// context has the price fields, so the other formula catalogs can lower
/// through it too.
pub struct Catalog {
    pub ctx: Context,
    pub formulas: Vec<(String, String)>,
}

/// A catalog of formulas.
pub ghost struct CatalogView {
    pub ctx: ContextView,
    pub formulas: Seq<(Seq<char>, Seq<char>)>,
}

impl View for Catalog {
    type V = CatalogView;

    open spec fn view(&self) -> CatalogView {
        CatalogView { ctx: self.ctx@, formulas: spelled(self.formulas@) }
    }
}

/// The catalog of a selection that may come without one.
pub open spec fn given(catalog: Option<Catalog>) -> CatalogView {
    catalog->0@
}

/// The context with a catalog lowered, if it is selected.
pub open spec fn lowered_if(
    selected: bool,
    v: ContextView,
    list: Seq<(Seq<char>, Seq<char>)>,
) -> ContextView {
    if selected {
        with_all_lowered(v, list)
    } else {
        v
    }
}

/// The entries of a catalog, if it is selected.
pub open spec fn listed_if(
    selected: bool,
    list: Seq<(Seq<char>, Term)>,
) -> Seq<(Seq<char>, Term)> {
    if selected {
        list
    } else {
        seq![]
    }
}

/// The context that the formula catalogs lower through: that of Alpha101 when
/// it is selected, with its formulas lowered, and the price fields otherwise;
/// then with the formulas of Alpha158 and of Alpha360 lowered, as selected.
pub open spec fn shared_context(
    m: MarketView,
    alpha101: bool,
    alpha158: bool,
    alpha360: bool,
    catalog: CatalogView,
) -> ContextView {
    let first = if alpha101 {
        with_all_lowered(catalog.ctx, catalog.formulas)
    } else {
        price_context(m)
    };
    lowered_if(alpha360, lowered_if(alpha158, first, alpha158_list()), alpha360_list())
}

/// The entries of the formula catalogs that are selected: Alpha101, Alpha158,
/// Alpha360.
pub open spec fn formula_entries(
    m: MarketView,
    alpha101: bool,
    alpha158: bool,
    alpha360: bool,
    catalog: CatalogView,
) -> Seq<(Seq<char>, Term)> {
    let v0 = if alpha101 {
        catalog.ctx
    } else {
        price_context(m)
    };
    let v1 = lowered_if(alpha101, v0, catalog.formulas);
    let v2 = lowered_if(alpha158, v1, alpha158_list());
    listed_if(alpha101, readings(v0, catalog.formulas)) + listed_if(
        alpha158,
        readings(v1, alpha158_list()),
    ) + listed_if(alpha360, readings(v2, alpha360_list()))
}

/// The names and formulas of the formula catalogs that are selected.
pub open spec fn selected_formulas(
    alpha101: bool,
    alpha158: bool,
    alpha360: bool,
    catalog: CatalogView,
) -> Seq<(Seq<char>, Seq<char>)> {
    formulas_if(alpha101, catalog.formulas) + formulas_if(alpha158, alpha158_list())
        + formulas_if(alpha360, alpha360_list())
}

/// The formulas of a catalog, if it is selected.
pub open spec fn formulas_if(
    selected: bool,
    list: Seq<(Seq<char>, Seq<char>)>,
) -> Seq<(Seq<char>, Seq<char>)> {
    if selected {
        list
    } else {
        seq![]
    }
}

/// The context of the formula catalogs that an alpha selection holds.
pub open spec fn alpha_context(
    m: MarketView,
    sets: Seq<AlphaFeatureSet>,
    catalog: CatalogView,
) -> ContextView {
    shared_context(
        m,
        sets.contains(AlphaFeatureSet::Alpha101),
        sets.contains(AlphaFeatureSet::Alpha158),
        sets.contains(AlphaFeatureSet::Alpha360),
        catalog,
    )
}

/// The raw entries of an alpha selection, in catalog order: CICC
/// fundamentals, Alpha101, Alpha158, Alpha360, CICC price-volume.
pub open spec fn alpha_entries(
    m: MarketView,
    sets: Seq<AlphaFeatureSet>,
    catalog: CatalogView,
) -> Seq<(Seq<char>, Term)> {
    listed_if(sets.contains(AlphaFeatureSet::CiccFund), fund_catalog(m)) + formula_entries(
        m,
        sets.contains(AlphaFeatureSet::Alpha101),
        sets.contains(AlphaFeatureSet::Alpha158),
        sets.contains(AlphaFeatureSet::Alpha360),
        catalog,
    ) + listed_if(
        sets.contains(AlphaFeatureSet::CiccPv),
        volume_catalog(volume_context(alpha_context(m, sets, catalog), m), m),
    )
}

/// The keys of an alpha selection's entries.
pub open spec fn alpha_keys(
    m: MarketView,
    sets: Seq<AlphaFeatureSet>,
    catalog: CatalogView,
) -> Seq<(Seq<char>, Option<Seq<char>>)> {
    keys_if(sets.contains(AlphaFeatureSet::CiccFund), hand_keys(fund_catalog(m))) + formula_keys(
        selected_formulas(
            sets.contains(AlphaFeatureSet::Alpha101),
            sets.contains(AlphaFeatureSet::Alpha158),
            sets.contains(AlphaFeatureSet::Alpha360),
            catalog,
        ),
    ) + keys_if(sets.contains(AlphaFeatureSet::CiccPv), volume_keys())
}

/// The keys of a risk selection's styles.
pub open spec fn style_keys(m: MarketView, sets: Seq<RiskFeatureSet>) -> Seq<
    (Seq<char>, Option<Seq<char>>),
> {
    keys_if(sets.contains(RiskFeatureSet::Barra), barra_keys(m))
}

/// The context after the entries of an alpha selection are built.
pub open spec fn context_after_alpha(
    m: MarketView,
    sets: Seq<AlphaFeatureSet>,
    catalog: CatalogView,
) -> ContextView {
    let v = alpha_context(m, sets, catalog);
    if sets.contains(AlphaFeatureSet::CiccPv) {
        volume_lowered(volume_context(v, m))
    } else {
        v
    }
}

/// The raw entries of a risk selection's styles.
pub open spec fn style_entries(
    m: MarketView,
    alpha_sets: Seq<AlphaFeatureSet>,
    risk_sets: Seq<RiskFeatureSet>,
    catalog: CatalogView,
) -> Seq<(Seq<char>, Term)> {
    listed_if(
        risk_sets.contains(RiskFeatureSet::Barra),
        barra_catalog(context_after_alpha(m, alpha_sets, catalog), m),
    )
}

/// Whether the market data has the fields of an alpha selection.
pub open spec fn alpha_ready(m: MarketView, sets: Seq<AlphaFeatureSet>) -> bool {
    &&& sets.contains(AlphaFeatureSet::CiccFund) ==> m.has_all(FUND_FIELDS@)
    &&& sets.contains(AlphaFeatureSet::CiccPv) ==> m.has_field("shares.circulating"@)
}

/// Whether the market data has the fields of a risk selection.
pub open spec fn risk_ready(m: MarketView, sets: Seq<RiskFeatureSet>) -> bool {
    sets.contains(RiskFeatureSet::Barra) ==> m.has_all(BARRA_FIELDS@)
}

/// The place of the first of the first `n` entries that is named `name`, or
/// -1.
pub open spec fn first_in(list: Seq<(Seq<char>, Term)>, name: Seq<char>, n: int) -> int
    decreases n,
{
    if n <= 0 {
        -1
    } else if first_in(list, name, n - 1) >= 0 {
        first_in(list, name, n - 1)
    } else if list[n - 1].0 == name {
        n - 1
    } else {
        -1
    }
}

/// The first `n` entries without those whose name an earlier one has.
pub open spec fn firsts(list: Seq<(Seq<char>, Term)>, n: int) -> Seq<(Seq<char>, Term)>
    decreases n,
{
    if n <= 0 {
        seq![]
    } else if first_in(list, list[n - 1].0, n - 1) < 0 {
        firsts(list, n - 1).push(list[n - 1])
    } else {
        firsts(list, n - 1)
    }
}

/// The entries with the first of each name kept.
pub open spec fn distinct(list: Seq<(Seq<char>, Term)>) -> Seq<(Seq<char>, Term)> {
    firsts(list, list.len() as int)
}

proof fn first_named_by_terms(entries: Seq<(String, Wire<Vector>)>, name: Seq<char>, n: int)
    requires
        n <= entries.len(),
    ensures
        first_named(entries, name, n) == first_in(named(entries), name, n),
    decreases n,
{
    if n > 0 {
        first_named_by_terms(entries, name, n - 1);
    }
}

pub(crate) proof fn kept_by_terms(entries: Seq<(String, Wire<Vector>)>, n: int)
    requires
        0 <= n <= entries.len(),
    ensures
        named(first_of_each(entries, n)) == firsts(named(entries), n),
    decreases n,
{
    if n > 0 {
        kept_by_terms(entries, n - 1);
        first_named_by_terms(entries, entries[n - 1].0@, n - 1);
    }
    assert(named(first_of_each(entries, n)) =~= firsts(named(entries), n));
}

pub(crate) proof fn kept_belongs(b: Builder, entries: Seq<(String, Wire<Vector>)>, n: int)
    requires
        0 <= n <= entries.len(),
        all_in(b, entries),
    ensures
        all_in(b, first_of_each(entries, n)),
    decreases n,
{
    if n > 0 {
        kept_belongs(b, entries, n - 1);
        assert(b.has(entries[n - 1].1));
    }
}

/// How an entry is finalized.
#[derive(Clone, Copy, Debug, PartialEq, Eq, Structural)]
pub enum Finish {
    /// Winsorized, z-scored and clamped.
    Normalize,
    /// Winsorized and imputed.
    Impute,
    /// Winsorized, imputed and z-scored.
    Expose,
}

/// A finalized entry.
pub open spec fn finished(how: Finish, x: Term) -> Term {
    match how {
        Finish::Normalize => normalized(x),
        Finish::Impute => imputed(x),
        Finish::Expose => unary(Unary::Standardize, imputed(x)),
    }
}

/// The finalized entries.
pub open spec fn all_finished(how: Finish, list: Seq<(Seq<char>, Term)>) -> Seq<(Seq<char>, Term)> {
    list.map_values(|e: (Seq<char>, Term)| (e.0, finished(how, e.1)))
}

/// The names of entries.
pub open spec fn names_of(list: Seq<(Seq<char>, Term)>) -> Seq<Seq<char>> {
    list.map_values(|e: (Seq<char>, Term)| e.0)
}

/// The terms of entries.
pub open spec fn terms_of(list: Seq<(Seq<char>, Term)>) -> Seq<Term> {
    list.map_values(|e: (Seq<char>, Term)| e.1)
}

/// A panel of entries; without entries, one without columns.
pub open spec fn panel_of(list: Seq<(Seq<char>, Term)>, n: usize) -> Term {
    if list.len() == 0 {
        plain(Op::NoColumns(n), Seq::empty())
    } else {
        plain(Op::Stack, terms_of(list))
    }
}

/// The intercept column.
pub open spec fn country(n: usize) -> (Seq<char>, Term) {
    ("COUNTRY"@, plain(Op::Full(n, Double { bits: ONE }), Seq::empty()))
}

/// Whether `tags` are the tags of the dummies, when these are selected.
pub open spec fn fits(industry: bool, industries: Seq<Seq<char>>, tags: Seq<Seq<char>>) -> bool {
    industry ==> lists_tags(industries, tags)
}

/// The columns of the risk panel: the styles, the intercept, and the industry
/// dummies when they are selected.
pub open spec fn risk_columns(
    how: Finish,
    styles: Seq<(Seq<char>, Term)>,
    n: usize,
    industry: bool,
    industries: Seq<Seq<char>>,
    tags: Seq<Seq<char>>,
) -> Seq<(Seq<char>, Term)> {
    all_finished(how, distinct(styles)).push(country(n)) + listed_if(
        industry,
        dummies(industries, tags),
    )
}

impl Features {
    /// Whether the panel belongs to the graph and has these columns.
    pub open spec fn shows(self, b: Builder, columns: Seq<(Seq<char>, Term)>, n: usize) -> bool {
        &&& b.has(self.panel)
        &&& self.panel@ == panel_of(columns, n)
        &&& texts(self.schema@) == names_of(columns)
    }
}

/// Builds the entries of the selected formula catalogs.
pub(crate) fn build_formulas(
    b: &mut Builder,
    m: &MarketData,
    alpha101: bool,
    alpha158: bool,
    alpha360: bool,
    catalog: Option<Catalog>,
) -> (r: (Context, Vec<(String, Wire<Vector>)>))
    requires
        old(b).ordered(),
        m.belongs(*old(b)),
        alpha101 ==> catalog is Some,
        alpha101 ==> catalog->0.ctx.belongs(*old(b)),
    ensures
        final(b).grown(*old(b)),
        r.0.belongs(*final(b)),
        alike(r.0@, shared_context(m@, alpha101, alpha158, alpha360, given(catalog))),
        all_in(*final(b), r.1@),
        named(r.1@) == formula_entries(m@, alpha101, alpha158, alpha360, given(catalog)),
        placed(r.0@, selected_formulas(alpha101, alpha158, alpha360, given(catalog)), r.1@),
        ({
            let first = if alpha101 {
                given(catalog).ctx
            } else {
                price_context(m@)
            };
            extends(r.0@, first) && beyond(r.0@, first, old(b).nodes().len() as int)
        }),
{
    let ghost cat = given(catalog);
    let mut entries: Vec<(String, Wire<Vector>)> = Vec::new();
    assert(named(entries@) =~= seq![]);
    let mut ctx: Context;
    let ghost v0 = if alpha101 {
        cat.ctx
    } else {
        price_context(m@)
    };
    let ghost v1 = lowered_if(alpha101, v0, cat.formulas);
    let ghost v2 = lowered_if(alpha158, v1, alpha158_list());
    if alpha101 {
        let Catalog { ctx: own, formulas } = catalog.unwrap();
        ctx = own;
        let more = lower_all(&mut ctx, b, &formulas);
        append(&mut entries, more);
        assert(named(entries@) =~= listed_if(alpha101, readings(v0, cat.formulas)));
    } else {
        ctx = build_price_context(b, m);
    }
    assert(alike(ctx@, v1));
    let ghost c1 = ctx@;
    let ghost e1 = named(entries@);
    let ghost n0 = old(b).nodes().len() as int;
    let ghost f1 = formulas_if(alpha101, cat.formulas);
    assert(extends(c1, v0) && beyond(c1, v0, n0));
    assert(placed(c1, f1, entries@));
    if alpha158 {
        let ghost kept = entries@;
        let ghost b1 = *b;
        let more = build_features_alpha158(b, &mut ctx);
        append(&mut entries, more);
        proof {
            alike_readings(c1, v1, alpha158_list());
            alike_when_all_lowered(c1, v1, alpha158_list());
            alike_is_transitive(ctx@, with_all_lowered(c1, alpha158_list()), v2);
            joined_belong(*b, kept, more@);
            extending_is_transitive(ctx@, c1, v0);
            beyond_is_transitive(ctx@, c1, v0, b1.nodes().len() as int, n0);
            places_stay(ctx@, c1, f1, kept);
            places_join(ctx@, f1, kept, alpha158_list(), more@);
        }
    }
    let ghost f2 = f1 + formulas_if(alpha158, alpha158_list());
    assert(f1 + seq![] =~= f1);
    assert(extends(ctx@, v0) && beyond(ctx@, v0, n0));
    assert(placed(ctx@, f2, entries@));
    assert(alike(ctx@, v2));
    assert(named(entries@) =~= e1 + listed_if(alpha158, readings(v1, alpha158_list())));
    let ghost c2 = ctx@;
    let ghost e2 = named(entries@);
    let ghost v3 = lowered_if(alpha360, v2, alpha360_list());
    if alpha360 {
        let ghost kept = entries@;
        let ghost b2 = *b;
        let more = build_features_alpha360(b, &mut ctx);
        append(&mut entries, more);
        proof {
            alike_readings(c2, v2, alpha360_list());
            alike_when_all_lowered(c2, v2, alpha360_list());
            alike_is_transitive(ctx@, with_all_lowered(c2, alpha360_list()), v3);
            joined_belong(*b, kept, more@);
            extending_is_transitive(ctx@, c2, v0);
            beyond_is_transitive(ctx@, c2, v0, b2.nodes().len() as int, n0);
            places_stay(ctx@, c2, f2, kept);
            places_join(ctx@, f2, kept, alpha360_list(), more@);
        }
    }
    assert(f2 + seq![] =~= f2);
    assert(placed(ctx@, f2 + formulas_if(alpha360, alpha360_list()), entries@));
    assert(alike(ctx@, v3));
    assert(named(entries@) =~= e2 + listed_if(alpha360, readings(v2, alpha360_list())));
    (ctx, entries)
}

proof fn places_join(
    v: ContextView,
    first: Seq<(Seq<char>, Seq<char>)>,
    a: Seq<(String, Wire<Vector>)>,
    second: Seq<(Seq<char>, Seq<char>)>,
    c: Seq<(String, Wire<Vector>)>,
)
    requires
        placed(v, first, a),
        placed(v, second, c),
    ensures
        placed(v, first + second, a + c),
{
    let list = first + second;
    let both = a + c;
    assert forall|i: int| 0 <= i < list.len() implies v.lowered.dom().contains(
        (#[trigger] list[i]).1,
    ) && v.lowered[list[i].1].0 == both[i].1.at() by {
        if i < first.len() {
            assert(list[i] == first[i]);
        } else {
            assert(list[i] == second[i - first.len()]);
        }
    }
}

pub(crate) proof fn joined_belong(
    b: Builder,
    first: Seq<(String, Wire<Vector>)>,
    second: Seq<(String, Wire<Vector>)>,
)
    requires
        all_in(b, first),
        all_in(b, second),
    ensures
        all_in(b, first + second),
{
    let both = first + second;
    assert forall|i: int| 0 <= i < both.len() implies b.has((#[trigger] both[i]).1) by {
        if i < first.len() {
            assert(both[i] == first[i]);
        } else {
            assert(both[i] == second[i - first.len()]);
        }
    }
}

/// Builds the raw entries of an alpha selection.
fn build_alpha(
    b: &mut Builder,
    m: &MarketData,
    sets: &Vec<AlphaFeatureSet>,
    catalog: Option<Catalog>,
) -> (r: (Context, Vec<(String, Wire<Vector>)>))
    requires
        old(b).ordered(),
        m.belongs(*old(b)),
        alpha_ready(m@, sets@),
        sets@.contains(AlphaFeatureSet::Alpha101) ==> catalog is Some,
        sets@.contains(AlphaFeatureSet::Alpha101) ==> catalog->0.ctx.belongs(*old(b)),
    ensures
        final(b).grown(*old(b)),
        r.0.belongs(*final(b)),
        alike(r.0@, context_after_alpha(m@, sets@, given(catalog))),
        all_in(*final(b), r.1@),
        named(r.1@) == alpha_entries(m@, sets@, given(catalog)),
        stand(r.0@, r.1@, alpha_keys(m@, sets@, given(catalog))),
{
    let ghost cat = given(catalog);
    let ghost b0 = *b;
    let fund = selects_alpha(sets, AlphaFeatureSet::CiccFund);
    let mut entries: Vec<(String, Wire<Vector>)> = Vec::new();
    assert(named(entries@) =~= seq![]);
    if fund {
        entries = build_features_cicc_fund(b, m);
    }
    assert(named(entries@) =~= listed_if(fund, fund_catalog(m@)));
    let ghost own = entries@;
    let ghost own_keys = keys_if(fund, hand_keys(fund_catalog(m@)));
    let ghost b1 = *b;
    let alpha101 = selects_alpha(sets, AlphaFeatureSet::Alpha101);
    let alpha158 = selects_alpha(sets, AlphaFeatureSet::Alpha158);
    let alpha360 = selects_alpha(sets, AlphaFeatureSet::Alpha360);
    let ghost before = if alpha101 {
        cat.ctx
    } else {
        price_context(m@)
    };
    let ghost formulas = selected_formulas(alpha101, alpha158, alpha360, cat);
    proof {
        if alpha101 {
            lowered_inside(catalog->0.ctx, b0);
        }
        inside_is_under(b1, own);
    }
    let (mut ctx, more) = build_formulas(b, m, alpha101, alpha158, alpha360, catalog);
    let ghost v = alpha_context(m@, sets@, cat);
    proof {
        joined_belong(*b, entries@, more@);
        formula_names(m@, alpha101, alpha158, alpha360, cat);
        let (low, high) = (b0.nodes().len() as int, b1.nodes().len() as int);
        assert forall|s: Seq<char>| #[trigger]
            ctx@.lowered.dom().contains(s) implies ctx@.lowered[s].0 < low
            || ctx@.lowered[s].0 >= high by {
            assert(keeps_place(ctx@, before, s));
        }
        assert forall|i: int| 0 <= i < own.len() implies (#[trigger] own[i]).0@ == own_keys[i].0
            && own_keys[i].1 is None by {
            assert(named(own)[i].0 == own[i].0@);
        }
        assert(named(own).len() == own.len());
        hands_stand(ctx@, own, own_keys, low, high);
        assert forall|i: int| 0 <= i < more@.len() implies (#[trigger] more@[i]).0@
            == formulas[i].0 by {
            assert(named(more@)[i].0 == formulas[i].0);
        }
        formulas_stand(ctx@, more@, formulas);
        joined_stand(ctx@, own, own_keys, more@, formula_keys(formulas), high);
    }
    append(&mut entries, more);
    let ghost e = named(entries@);
    let ghost shared_keys = own_keys + formula_keys(formulas);
    let pv = selects_alpha(sets, AlphaFeatureSet::CiccPv);
    if pv {
        let ghost c = ctx@;
        let ghost kept = entries@;
        let ghost from = b.nodes().len() as int;
        proof {
            inside_is_under(*b, kept);
        }
        let last = build_features_cicc_pv(b, &mut ctx, m);
        append(&mut entries, last);
        proof {
            entries_stay(ctx@, c, kept, shared_keys, from);
            joined_stand(ctx@, kept, shared_keys, last@, volume_keys(), from);
            volume_of_alike(c, v, m@);
            alike_is_transitive(
                ctx@,
                volume_lowered(volume_context(c, m@)),
                volume_lowered(volume_context(v, m@)),
            );
            joined_belong(*b, kept, last@);
        }
    }
    assert(named(entries@) =~= e + listed_if(
        pv,
        volume_catalog(volume_context(v, m@), m@),
    ));
    assert(alpha_keys(m@, sets@, cat) =~= shared_keys + keys_if(pv, volume_keys()));
    assert(shared_keys + seq![] =~= shared_keys);
    (ctx, entries)
}

/// Finalizes entries into the columns of a panel.
pub(crate) fn finish_all(b: &mut Builder, how: Finish, entries: &Vec<(String, Wire<Vector>)>) -> (r: Vec<
    (String, Wire<Vector>),
>)
    requires
        old(b).ordered(),
        all_in(*old(b), entries@),
    ensures
        final(b).grown(*old(b)),
        all_in(*final(b), r@),
        named(r@) == all_finished(how, named(entries@)),
{
    let mut out: Vec<(String, Wire<Vector>)> = Vec::new();
    for i in 0..entries.len()
        invariant
            b.grown(*old(b)),
            all_in(*b, entries@),
            all_in(*b, out@),
            out@.len() == i,
            forall|k: int|
                0 <= k < i ==> (#[trigger] out@[k]).0@ == entries@[k].0@ && out@[k].1@
                    == finished(how, entries@[k].1@),
    {
        let raw = entries[i].1;
        let h = match how {
            Finish::Normalize => normalize(b, raw),
            Finish::Impute => winsorize_impute(b, raw),
            Finish::Expose => {
                let filled = winsorize_impute(b, raw);
                b.unary(Unary::Standardize, filled)
            },
        };
        out.push((entries[i].0.clone(), h));
    }
    assert(named(out@) =~= all_finished(how, named(entries@)));
    out
}

/// Stacks columns into a panel.
pub(crate) fn stack_up(b: &mut Builder, n: usize, columns: &Vec<(String, Wire<Vector>)>) -> (r: Features)
    requires
        old(b).ordered(),
        all_in(*old(b), columns@),
    ensures
        final(b).grown(*old(b)),
        r.shows(*final(b), named(columns@), n),
{
    let mut schema: Vec<String> = Vec::new();
    let mut wires: Vec<Wire<Vector>> = Vec::new();
    for i in 0..columns.len()
        invariant
            all_in(*b, columns@),
            schema@.len() == i,
            wires@.len() == i,
            forall|k: int| 0 <= k < i ==> (#[trigger] schema@[k])@ == columns@[k].0@,
            forall|k: int| 0 <= k < i ==> #[trigger] wires@[k] == columns@[k].1,
    {
        schema.push(columns[i].0.clone());
        wires.push(columns[i].1);
    }
    proof {
        assert(texts(schema@) =~= names_of(named(columns@)));
        assert(terms(wires@) =~= terms_of(named(columns@)));
        assert forall|i: int| 0 <= i < wires@.len() implies b.has(#[trigger] wires@[i]) by {
            assert(b.has(columns@[i].1));
        }
    }
    let panel: Wire<Matrix> = if wires.len() == 0 {
        b.no_columns(n)
    } else {
        b.stack(&wires)
    };
    Features { schema, panel }
}

/// Drops the entries whose name an earlier one has, and gives the names that
/// stood for different wires.
fn dedup(
    Ghost(b): Ghost<Builder>,
    entries: &mut Vec<(String, Wire<Vector>)>,
) -> (r: Vec<String>)
    requires
        all_in(b, old(entries)@),
    ensures
        all_in(b, final(entries)@),
        named(final(entries)@) == distinct(named(old(entries)@)),
        texts(r@) == clashes(old(entries)@, old(entries)@.len() as int),
{
    let ghost all = entries@;
    let warned = dedup_entries(entries);
    proof {
        kept_belongs(b, all, all.len() as int);
        kept_by_terms(all, all.len() as int);
        assert(texts(warned@) =~= clashes(all, all.len() as int));
    }
    warned
}

/// Builds the risk panel from the selected styles, the intercept and the
/// industry dummies when they are selected.
fn build_risk(
    b: &mut Builder,
    ctx: &mut Context,
    m: &MarketData,
    how: Finish,
    sets: &Vec<RiskFeatureSet>,
    industries: &Vec<String>,
    Ghost(v): Ghost<ContextView>,
) -> (r: (Features, Vec<String>))
    requires
        old(b).ordered(),
        m.belongs(*old(b)),
        old(ctx).belongs(*old(b)),
        alike(old(ctx)@, v),
        risk_ready(m@, sets@),
    ensures
        final(b).grown(*old(b)),
        ({
            let styles = listed_if(
                sets@.contains(RiskFeatureSet::Barra),
                barra_catalog(v, m@),
            );
            &&& texts(r.1@) == different(style_keys(m@, sets@))
            &&& exists|tags: Seq<Seq<char>>| #[trigger]
                fits(
                    sets@.contains(RiskFeatureSet::Industry),
                    texts(industries@),
                    tags,
                ) && r.0.shows(
                    *final(b),
                    risk_columns(
                        how,
                        styles,
                        m@.n,
                        sets@.contains(RiskFeatureSet::Industry),
                        texts(industries@),
                        tags,
                    ),
                    m@.n,
                )
        }),
{
    let barra = selects_risk(sets, RiskFeatureSet::Barra);
    let mut entries: Vec<(String, Wire<Vector>)> = Vec::new();
    assert(named(entries@) =~= seq![]);
    if barra {
        proof {
            barra_of_alike(ctx@, v, m@);
        }
        entries = build_features_barra(b, ctx, m);
    }
    let ghost styles = listed_if(barra, barra_catalog(v, m@));
    assert(named(entries@) =~= styles);
    let ghost now = *b;
    proof {
        assert(stand(ctx@, entries@, style_keys(m@, sets@)));
        clashes_by_key(*ctx, entries@, style_keys(m@, sets@), entries@.len() as int);
    }
    let warned = dedup(Ghost(now), &mut entries);
    let mut columns = finish_all(b, how, &entries);
    let ones = b.full(m.n, Double { bits: ONE });
    enlist(b, &mut columns, "COUNTRY", ones);
    let ghost mut tags: Seq<Seq<char>> = seq![];
    let industry = selects_risk(sets, RiskFeatureSet::Industry);
    if industry {
        let dummy = build_features_industry(b, industries);
        proof {
            tags = choose|tags: Seq<Seq<char>>| #[trigger]
                lists_tags(texts(industries@), tags) && named(dummy@) == dummies(
                    texts(industries@),
                    tags,
                );
            joined_belong(*b, columns@, dummy@);
        }
        append(&mut columns, dummy);
    }
    assert(fits(industry, texts(industries@), tags));
    assert(named(columns@) =~= risk_columns(
        how,
        styles,
        m@.n,
        industry,
        texts(industries@),
        tags,
    ));
    (stack_up(b, m.n, &columns), warned)
}

/// The feature panels and the names that different features had in common.
pub struct Panels {
    pub alpha: Features,
    pub risk: Features,
    /// Names that stood for different features in the alpha selection.
    pub alpha_clashes: Vec<String>,
    /// Names that stood for different features among the risk styles.
    pub risk_clashes: Vec<String>,
}

impl Panels {
    /// Whether the panels are those of a selection, finalized in these ways.
    pub open spec fn show(
        self,
        b: Builder,
        m: MarketView,
        alpha_sets: Seq<AlphaFeatureSet>,
        risk_sets: Seq<RiskFeatureSet>,
        industries: Seq<Seq<char>>,
        catalog: CatalogView,
        alpha_how: Finish,
        risk_how: Finish,
    ) -> bool {
        let entries = alpha_entries(m, alpha_sets, catalog);
        let styles = style_entries(m, alpha_sets, risk_sets, catalog);
        &&& self.alpha.shows(b, all_finished(alpha_how, distinct(entries)), m.n)
        &&& texts(self.alpha_clashes@) == different(alpha_keys(m, alpha_sets, catalog))
        &&& exists|tags: Seq<Seq<char>>| #[trigger]
            fits(
                risk_sets.contains(RiskFeatureSet::Industry),
                industries,
                tags,
            ) && self.risk.shows(
                b,
                risk_columns(
                    risk_how,
                    styles,
                    m.n,
                    risk_sets.contains(RiskFeatureSet::Industry),
                    industries,
                    tags,
                ),
                m.n,
            )
        &&& texts(self.risk_clashes@) == different(style_keys(m, risk_sets))
    }
}

/// Builds both panels of a selection.
pub(crate) fn build_panels(
    b: &mut Builder,
    m: &MarketData,
    alpha_sets: &Vec<AlphaFeatureSet>,
    risk_sets: &Vec<RiskFeatureSet>,
    industries: &Vec<String>,
    catalog: Option<Catalog>,
    alpha_how: Finish,
    risk_how: Finish,
) -> (r: Panels)
    requires
        old(b).ordered(),
        m.belongs(*old(b)),
        alpha_ready(m@, alpha_sets@),
        risk_ready(m@, risk_sets@),
        alpha_sets@.contains(AlphaFeatureSet::Alpha101) ==> catalog is Some,
        alpha_sets@.contains(AlphaFeatureSet::Alpha101) ==> catalog->0.ctx.belongs(*old(b)),
    ensures
        final(b).grown(*old(b)),
        r.show(
            *final(b),
            m@,
            alpha_sets@,
            risk_sets@,
            texts(industries@),
            given(catalog),
            alpha_how,
            risk_how,
        ),
{
    let ghost cat = given(catalog);
    let (mut ctx, mut entries) = build_alpha(b, m, alpha_sets, catalog);
    let ghost now = *b;
    proof {
        clashes_by_key(
            ctx,
            entries@,
            alpha_keys(m@, alpha_sets@, cat),
            entries@.len() as int,
        );
    }
    let alpha_clashes = dedup(Ghost(now), &mut entries);
    let columns = finish_all(b, alpha_how, &entries);
    let alpha = stack_up(b, m.n, &columns);
    assert(ctx.belongs(*b));
    let ghost v = context_after_alpha(m@, alpha_sets@, cat);
    let (risk, risk_clashes) = build_risk(
        b,
        &mut ctx,
        m,
        risk_how,
        risk_sets,
        industries,
        Ghost(v),
    );
    Panels { alpha, risk, alpha_clashes, risk_clashes }
}

/// Whether no value of a column is further than `bound` from zero.
pub open spec fn stays_within(column: Term, bound: real) -> bool {
    forall|run: Run, lane: int, now: int|
        known(run, column, lane, now) ==> -bound <= #[trigger] num(run, column, lane, now) <= bound
}

/// Whether a column has a value for every symbol once it has read one.
pub open spec fn fills_gaps(column: Term) -> bool {
    forall|run: Run, lane: int, now: int|
        present(cross(run, column.inputs[0], now), run.lanes) > 0 ==> #[trigger] known(
            run,
            column,
            lane,
            now,
        )
}

/// What the three finalizers make of a column.
pub(crate) proof fn finished_columns(x: Term)
    ensures
        stays_within(finished(Finish::Normalize, x), 5real),
        fills_gaps(finished(Finish::Impute, x)),
        finished(Finish::Expose, x).op == Op::Unary(Unary::Standardize),
        finished(Finish::Expose, x).inputs.len() == 1,
        fills_gaps(finished(Finish::Expose, x).inputs[0]),
{
    let bounded = finished(Finish::Normalize, x);
    assert forall|run: Run, lane: int, now: int| known(run, bounded, lane, now) implies -5real
        <= #[trigger] num(run, bounded, lane, now) <= 5real by {
        finishes_do_what_they_say(run, x, lane, now);
    }
    let filled = finished(Finish::Impute, x);
    assert forall|run: Run, lane: int, now: int|
        present(cross(run, filled.inputs[0], now), run.lanes) > 0 implies #[trigger] known(
        run,
        filled,
        lane,
        now,
    ) by {
        finishes_do_what_they_say(run, x, lane, now);
    }
    assert(finished(Finish::Expose, x).inputs =~= seq![filled]);
}

/// Builds the two feature panels of the factor models: the alpha panel from
/// the selected alpha sets and the risk panel from the selected risk sets
/// plus the always-on `COUNTRY` intercept, each entry normalized and stacked.
/// An empty alpha selection gives a panel without columns.
///
/// `industries` tags each symbol for the industry dummies; `catalog` is the
/// Alpha101 catalog, needed when it is selected.
pub fn build_features(
    b: &mut Builder,
    m: &MarketData,
    alpha_sets: &Vec<AlphaFeatureSet>,
    risk_sets: &Vec<RiskFeatureSet>,
    industries: &Vec<String>,
    catalog: Option<Catalog>,
) -> (r: Panels)
    requires
        old(b).ordered(),
        m.belongs(*old(b)),
        alpha_ready(m@, alpha_sets@),
        risk_ready(m@, risk_sets@),
        alpha_sets@.contains(AlphaFeatureSet::Alpha101) ==> catalog is Some,
        alpha_sets@.contains(AlphaFeatureSet::Alpha101) ==> catalog->0.ctx.belongs(*old(b)),
    ensures
        final(b).grown(*old(b)),
        r.show(
            *final(b),
            m@,
            alpha_sets@,
            risk_sets@,
            texts(industries@),
            given(catalog),
            Finish::Normalize,
            Finish::Normalize,
        ),
        forall|i: int|
            0 <= i < r.alpha.panel@.inputs.len() ==> stays_within(
                #[trigger] r.alpha.panel@.inputs[i],
                5real,
            ),
        forall|i: int|
            0 <= i < distinct(style_entries(m@, alpha_sets@, risk_sets@, given(catalog))).len()
                ==> stays_within(#[trigger] r.risk.panel@.inputs[i], 5real),
{
    let r = build_panels(
        b,
        m,
        alpha_sets,
        risk_sets,
        industries,
        catalog,
        Finish::Normalize,
        Finish::Normalize,
    );
    proof {
        let entries = distinct(alpha_entries(m@, alpha_sets@, given(catalog)));
        let styles = distinct(style_entries(m@, alpha_sets@, risk_sets@, given(catalog)));
        assert forall|i: int| 0 <= i < r.alpha.panel@.inputs.len() implies stays_within(
            #[trigger] r.alpha.panel@.inputs[i],
            5real,
        ) by {
            assert(r.alpha.panel@.inputs[i] == finished(Finish::Normalize, entries[i].1));
            finished_columns(entries[i].1);
        }
        assert forall|i: int| 0 <= i < styles.len() implies stays_within(
            #[trigger] r.risk.panel@.inputs[i],
            5real,
        ) by {
            assert(r.risk.panel@.inputs[i] == finished(Finish::Normalize, styles[i].1));
            finished_columns(styles[i].1);
        }
    }
    r
}

/// The entries of the formula catalogs have the names of their formulas.
pub(crate) proof fn formula_names(
    m: MarketView,
    alpha101: bool,
    alpha158: bool,
    alpha360: bool,
    catalog: CatalogView,
)
    ensures
        ({
            let entries = formula_entries(m, alpha101, alpha158, alpha360, catalog);
            let formulas = selected_formulas(alpha101, alpha158, alpha360, catalog);
            &&& entries.len() == formulas.len()
            &&& forall|i: int|
                0 <= i < entries.len() ==> (#[trigger] entries[i]).0 == formulas[i].0
        }),
{
}

/// Of some entries some are kept.
pub(crate) proof fn some_are_kept(list: Seq<(Seq<char>, Term)>, n: int)
    requires
        0 <= n <= list.len(),
    ensures
        firsts(list, n).len() <= n,
        n > 0 ==> firsts(list, n).len() > 0,
    decreases n,
{
    if n > 0 {
        some_are_kept(list, n - 1);
    }
}

/// The intercept is one on every lane.
pub proof fn the_intercept_is_one(run: Run, n: usize, lane: int, now: int)
    ensures
        country(n).0 == "COUNTRY"@,
        value(run, country(n).1, lane, now) == Some(1real),
{
    vstd::arithmetic::power2::lemma2_to64_rest();
    patterns_are_numbers(Double { bits: ONE }, 1023, 0, 52, 1);
}

/// The risk panel has a column per style, in the order of the first of each
/// name, then the intercept, then a column per industry when they are
/// selected.
pub proof fn the_risk_panel_has_its_columns(
    how: Finish,
    styles: Seq<(Seq<char>, Term)>,
    n: usize,
    industry: bool,
    industries: Seq<Seq<char>>,
    tags: Seq<Seq<char>>,
    i: int,
)
    ensures
        ({
            let list = risk_columns(how, styles, n, industry, industries, tags);
            let kept = distinct(styles);
            let panel = panel_of(list, n);
            &&& list.len() == kept.len() + 1 + if industry {
                tags.len()
            } else {
                0
            }
            &&& panel.op == Op::Stack
            &&& panel.inputs.len() == list.len()
            &&& 0 <= i < list.len() ==> panel.inputs[i] == list[i].1
            &&& 0 <= i < kept.len() ==> list[i].0 == kept[i].0 && list[i].1 == finished(
                how,
                kept[i].1,
            )
            &&& list[kept.len() as int].0 == "COUNTRY"@
            &&& industry && 0 <= i < tags.len() ==> {
                let dummy = list[kept.len() + 1 + i];
                &&& dummy.0 == "IND_"@ + tags[i]
                &&& dummy.1.op == Op::Indicator
                &&& dummy.1.data matches PayloadView::Flags(flags) && flags.len()
                    == industries.len() && forall|s: int|
                    0 <= s < flags.len() ==> (#[trigger] flags[s] <==> industries[s] == tags[i])
            }
        }),
{
}

/// What each way of finalizing does: a normalized feature is winsorized,
/// z-scored and clamped; an imputed one is winsorized and has no gap as long
/// as anything is there; an exposed one is the imputed one z-scored.
pub proof fn finishes_do_what_they_say(run: Run, x: Term, lane: int, now: int)
    ensures
        finished(Finish::Normalize, x).op matches Op::Unary(Unary::Clamp(_, _)),
        finished(Finish::Normalize, x).inputs[0].op == Op::Unary(Unary::StandardizeOrZero),
        finished(Finish::Normalize, x).inputs[0].inputs[0].inputs == seq![x],
        known(run, finished(Finish::Normalize, x), lane, now) ==> -5real <= num(
            run,
            finished(Finish::Normalize, x),
            lane,
            now,
        ) <= 5real,
        finished(Finish::Impute, x).op == Op::Unary(Unary::Impute),
        finished(Finish::Impute, x).inputs[0].inputs == seq![x],
        present(cross(run, finished(Finish::Impute, x).inputs[0], now), run.lanes) > 0 ==> known(
            run,
            finished(Finish::Impute, x),
            lane,
            now,
        ),
        finished(Finish::Expose, x).op == Op::Unary(Unary::Standardize),
        finished(Finish::Expose, x).inputs == seq![finished(Finish::Impute, x)],
{
    if known(run, normalized(x), lane, now) {
        a_normalized_feature_is_bounded(run, x, lane, now);
    }
    imputing_fills_with_the_mean(run, x, lane, now);
    assert(finished(Finish::Normalize, x).inputs[0].inputs[0].inputs =~= seq![x]);
    assert(finished(Finish::Expose, x).inputs =~= seq![finished(Finish::Impute, x)]);
}

proof fn parts_stand_in_line(
    a: Seq<(Seq<char>, Term)>,
    b: Seq<(Seq<char>, Term)>,
    c: Seq<(Seq<char>, Term)>,
    d: Seq<(Seq<char>, Term)>,
    e: Seq<(Seq<char>, Term)>,
    i: int,
)
    ensures
        ({
            let all = a + (b + c + d) + e;
            &&& all.len() == a.len() + b.len() + c.len() + d.len() + e.len()
            &&& 0 <= i < a.len() ==> all[i] == a[i]
            &&& 0 <= i < b.len() ==> all[a.len() + i] == b[i]
            &&& 0 <= i < c.len() ==> all[a.len() + b.len() + i] == c[i]
            &&& 0 <= i < d.len() ==> all[a.len() + b.len() + c.len() + i] == d[i]
            &&& 0 <= i < e.len() ==> all[a.len() + b.len() + c.len() + d.len() + i] == e[i]
        }),
{
}

/// Every selected catalog stands in the entries whole, in catalog order:
/// fundamentals, the supplied one, Alpha158, Alpha360, price and volume. None
/// that is not selected does.
pub proof fn a_selection_lists_its_catalogs(
    m: MarketView,
    sets: Seq<AlphaFeatureSet>,
    catalog: CatalogView,
    i: int,
)
    ensures
        ({
            let list = alpha_entries(m, sets, catalog);
            let sized = |set: AlphaFeatureSet, n: nat|
                if sets.contains(set) {
                    n as int
                } else {
                    0
                };
            let a = sized(AlphaFeatureSet::CiccFund, fund_catalog(m).len());
            let b = a + sized(AlphaFeatureSet::Alpha101, catalog.formulas.len());
            let c = b + sized(AlphaFeatureSet::Alpha158, alpha158_list().len());
            let d = c + sized(AlphaFeatureSet::Alpha360, alpha360_list().len());
            let volume = volume_catalog(volume_context(alpha_context(m, sets, catalog), m), m);
            let e = d + sized(AlphaFeatureSet::CiccPv, volume.len());
            &&& list.len() == e
            &&& 0 <= i < a ==> list[i] == fund_catalog(m)[i]
            &&& 0 <= i < b - a ==> list[a + i].0 == catalog.formulas[i].0
            &&& 0 <= i < c - b ==> list[b + i].0 == alpha158_list()[i].0
            &&& 0 <= i < d - c ==> list[c + i].0 == alpha360_list()[i].0
            &&& 0 <= i < e - d ==> list[d + i] == volume[i]
        }),
{
    let a101 = sets.contains(AlphaFeatureSet::Alpha101);
    let a158 = sets.contains(AlphaFeatureSet::Alpha158);
    let a360 = sets.contains(AlphaFeatureSet::Alpha360);
    let v0 = if a101 {
        catalog.ctx
    } else {
        price_context(m)
    };
    let v1 = lowered_if(a101, v0, catalog.formulas);
    let v2 = lowered_if(a158, v1, alpha158_list());
    parts_stand_in_line(
        listed_if(sets.contains(AlphaFeatureSet::CiccFund), fund_catalog(m)),
        listed_if(a101, readings(v0, catalog.formulas)),
        listed_if(a158, readings(v1, alpha158_list())),
        listed_if(a360, readings(v2, alpha360_list())),
        listed_if(
            sets.contains(AlphaFeatureSet::CiccPv),
            volume_catalog(volume_context(alpha_context(m, sets, catalog), m), m),
        ),
        i,
    );
    readings_keep_names(v0, catalog.formulas, i);
    readings_keep_names(v1, alpha158_list(), i);
    readings_keep_names(v2, alpha360_list(), i);
}

proof fn readings_keep_names(v: ContextView, list: Seq<(Seq<char>, Seq<char>)>, i: int)
    ensures
        readings(v, list).len() == list.len(),
        0 <= i < list.len() ==> readings(v, list)[i].0 == list[i].0,
{
}

/// The styles are the Barra descriptors when they are selected, and none
/// otherwise.
pub proof fn the_styles_are_selected(
    m: MarketView,
    alpha_sets: Seq<AlphaFeatureSet>,
    risk_sets: Seq<RiskFeatureSet>,
    catalog: CatalogView,
)
    ensures
        risk_sets.contains(RiskFeatureSet::Barra) ==> style_entries(
            m,
            alpha_sets,
            risk_sets,
            catalog,
        ) == barra_catalog(context_after_alpha(m, alpha_sets, catalog), m),
        !risk_sets.contains(RiskFeatureSet::Barra) ==> style_entries(
            m,
            alpha_sets,
            risk_sets,
            catalog,
        ).len() == 0,
{
}

} // verus!
