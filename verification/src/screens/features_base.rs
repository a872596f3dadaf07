//! The screen of features as they are.
use vstd::prelude::*;

use crate::data::{MarketData, MarketView, first_absent, no_such_field};
use crate::features::needs::{
    VOLUME_FIELDS, alpha_fields, has_both, names_if, note, note_alpha, ready_for, risk_fields,
};
use crate::features::panels::{Catalog, Finish, Panels, build_features, given};
use crate::features::sets::{AlphaFeatureSet, RiskFeatureSet};
use crate::graph::{Builder, Series, Term, Vector, Wire, texts};
use crate::screens::ic::{are_ics, build_ics, build_universe, daily_universe};
use crate::time::Instant;

verus! {

/// The screen's settings.
#[derive(Debug)]
pub struct Args {
    /// Directory of the market panels.
    pub data_dir: String,
    /// Directory of the Python operator modules.
    pub python_ops_dir: String,
    /// Path of the table of cumulative coefficients to write.
    pub output: String,
    /// First date to read.
    pub start: Option<Instant>,
    /// First date not to read.
    pub end: Option<Instant>,
    pub alpha_feature_sets: Vec<AlphaFeatureSet>,
    /// Whether ranks are correlated instead of values.
    pub rank: bool,
    /// Trading days that the predicted return spans.
    pub horizon: usize,
    /// Number of stocks in the cross-section, zero for the whole market.
    pub universe_size: usize,
}

/// The panel fields that the screen reads.
pub open spec fn fields_read(args: Args) -> Seq<&'static str> {
    alpha_fields(args.alpha_feature_sets@) + names_if(args.universe_size > 0, VOLUME_FIELDS@)
}

/// The universe that the screen is restricted to, if it is.
pub open spec fn screen_universe(args: Args, m: MarketView) -> Option<Term> {
    if args.universe_size > 0 {
        Some(daily_universe(m, args.universe_size))
    } else {
        None
    }
}

/// The wired screen.
pub struct Screen {
    pub panels: Panels,
    /// The daily coefficients, feature by feature.
    pub ics: Vec<(String, Wire<Series>)>,
}

/// Wires the screen over the market data: the alpha panel and the information
/// coefficient of each of its columns. A missing field is refused, with the
/// message about it.
///
/// `industries` tags each symbol, and `catalog` is the Alpha101 catalog,
/// needed when it is selected.
pub fn build_screen(
    b: &mut Builder,
    args: &Args,
    m: &MarketData,
    industries: &Vec<String>,
    catalog: Option<Catalog>,
) -> (r: Result<Screen, String>)
    requires
        old(b).ordered(),
        m.belongs(*old(b)),
        args.alpha_feature_sets@.contains(AlphaFeatureSet::Alpha101) ==> catalog is Some,
        args.alpha_feature_sets@.contains(AlphaFeatureSet::Alpha101)
            ==> catalog->0.ctx.belongs(*old(b)),
    ensures
        final(b).grown(*old(b)),
        match r {
            Ok(s) => {
                &&& m@.has_all(fields_read(*args))
                &&& s.panels.show(
                    *final(b),
                    m@,
                    args.alpha_feature_sets@,
                    Seq::<RiskFeatureSet>::empty(),
                    texts(industries@),
                    given(catalog),
                    Finish::Normalize,
                    Finish::Normalize,
                )
                &&& are_ics(
                    s.ics@,
                    *final(b),
                    m@,
                    texts(s.panels.alpha.schema@),
                    s.panels.alpha.panel@,
                    screen_universe(*args, m@),
                    args.horizon,
                    args.rank,
                )
            },
            Err(message) => exists|i: int| #[trigger]
                first_absent(m@, fields_read(*args), i) && message@ == no_such_field(
                    fields_read(*args)[i]@,
                    m@.fields.len(),
                ),
        },
{
    let mut fields: Vec<&'static str> = Vec::new();
    note_alpha(&mut fields, &args.alpha_feature_sets);
    assert(fields@ =~= alpha_fields(args.alpha_feature_sets@));
    if args.universe_size > 0 {
        note(&mut fields, VOLUME_FIELDS.as_slice());
    }
    assert(fields@ =~= fields_read(*args));
    if let Some(message) = m.absent(fields.as_slice()) {
        return Err(message);
    }
    let none: Vec<RiskFeatureSet> = Vec::new();
    proof {
        has_both(
            m@,
            alpha_fields(args.alpha_feature_sets@),
            names_if(args.universe_size > 0, VOLUME_FIELDS@),
        );
        assert(risk_fields(none@) =~= seq![]);
        ready_for(m@, args.alpha_feature_sets@, none@);
        if args.universe_size > 0 {
            assert(m@.has_field(VOLUME_FIELDS@[0]@));
        }
    }
    let panels = build_features(b, m, &args.alpha_feature_sets, &none, industries, catalog);
    assert(m.belongs(*b));
    let universe: Option<Wire<Vector>> = if args.universe_size > 0 {
        Some(build_universe(b, m, args.universe_size))
    } else {
        None
    };
    let ghost weights = screen_universe(*args, m@);
    let ics = build_ics(
        b,
        m,
        &panels.alpha.schema,
        panels.alpha.panel,
        universe,
        args.horizon,
        args.rank,
        Ghost(weights),
    );
    Ok(Screen { panels, ics })
}

/// A screen is over the whole market unless it is given a size.
pub proof fn no_size_screens_the_whole_market(args: Args, m: MarketView)
    ensures
        args.universe_size == 0 <==> screen_universe(args, m) is None,
        args.universe_size > 0 ==> screen_universe(args, m) == Some(
            daily_universe(m, args.universe_size),
        ),
{
}

} // verus!
