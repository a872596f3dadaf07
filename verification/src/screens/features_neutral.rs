//! The screen of features made orthogonal to the risk exposures.
//!
//! A mean-variance optimizer prices every unit of exposure to the risk
//! factors, so a feature whose predictive power lies in their span reaches
//! the book only as a bet that the optimizer hedges away. What survives the
//! projection is what the optimizer can spend.
use vstd::prelude::*;

use crate::data::{MarketData, MarketView, first_absent, no_such_field};
use crate::features::needs::{
    VOLUME_FIELDS, alpha_fields, has_both, note, note_alpha, note_risk, ready_for, risk_fields,
};
use crate::features::panels::{Catalog, Finish, Panels, build_features, given};
use crate::features::sets::{AlphaFeatureSet, RiskFeatureSet};
use crate::graph::{Builder, Matrix, Param, Series, Term, Wire, params_view, texts};
use crate::ops::module;
use crate::screens::features_base;
use crate::screens::ic::{are_ics, build_ics, build_universe, daily_universe};
use crate::time::{Instant, MAX_DAYS, days_earlier, warm_up_from};
use crate::meaning::asks;

verus! {

/// The message about a cross-section that is too small to trade.
pub const NO_CROSS_SECTION: &'static str = "the neutralized screen needs a tradable cross-section";

/// The screen's settings.
#[derive(Debug)]
pub struct Args {
    /// Directory of the market panels.
    pub data_dir: String,
    /// Directory of the Python operator modules.
    pub python_ops_dir: String,
    /// Path of the table of cumulative coefficients to write.
    pub output: String,
    /// First date to score.
    pub start: Option<Instant>,
    /// First date not to score.
    pub end: Option<Instant>,
    /// Calendar days of data read before `start`.
    pub warmup_days: usize,
    pub alpha_feature_sets: Vec<AlphaFeatureSet>,
    /// The risk features that the alpha features are made orthogonal to.
    pub risk_feature_sets: Vec<RiskFeatureSet>,
    /// Whether the features are projected before they are scored.
    pub neutralize: bool,
    /// Whether ranks are correlated instead of values.
    pub rank: bool,
    /// Trading days that the predicted return spans.
    pub horizon: usize,
    /// Number of stocks in the cross-section.
    pub universe_size: usize,
}

impl Args {
    /// Where the panels are read from: `start` less the warm-up, or the
    /// beginning when there is no start.
    pub fn data_start(&self) -> (r: Option<Instant>)
        requires
            self.warmup_days <= MAX_DAYS,
        ensures
            r == match self.start {
                Some(start) => Some(days_earlier(start, self.warmup_days as int)),
                None => None,
            },
    {
        match self.start {
            Some(start) => Some(warm_up_from(start, self.warmup_days as i64)),
            None => None,
        }
    }
}

/// The panel fields that the screen reads.
pub open spec fn fields_read(args: Args) -> Seq<&'static str> {
    alpha_fields(args.alpha_feature_sets@) + risk_fields(args.risk_feature_sets@) + VOLUME_FIELDS@
}

/// The panel that is scored: the alpha panel, each of its columns projected
/// orthogonally to the risk exposures over the tradable cross-section when
/// that is asked for.
pub open spec fn scored_panel(args: Args, m: MarketView, alpha: Term, risk: Term) -> Term {
    if args.neutralize {
        module(
            "screens.neutralize"@,
            seq![],
            seq![m.daily, alpha, risk, daily_universe(m, args.universe_size)],
        )
    } else {
        alpha
    }
}

/// Why the screen cannot be wired.
#[derive(Debug)]
pub enum ScreenError {
    /// The cross-section has less than two symbols.
    NoCrossSection,
    /// The market data lacks a field, with the message about it.
    NoField(String),
}

impl ScreenError {
    /// The message about the error.
    pub open spec fn message(self) -> Seq<char> {
        match self {
            ScreenError::NoCrossSection => NO_CROSS_SECTION@,
            ScreenError::NoField(message) => message@,
        }
    }

    /// The message about the error.
    pub fn text(&self) -> (r: String)
        ensures
            r@ == self.message(),
    {
        match self {
            ScreenError::NoCrossSection => NO_CROSS_SECTION.to_string(),
            ScreenError::NoField(message) => message.clone(),
        }
    }
}

/// The wired screen.
pub struct Screen {
    pub panels: Panels,
    /// The daily coefficients, feature by feature.
    pub ics: Vec<(String, Wire<Series>)>,
}

/// Without the projection, the screen is the plain one: whatever wires are
/// the coefficients of one are those of the other, given the same panel,
/// horizon, correlation and cross-section.
pub proof fn without_projection_the_screen_is_plain(
    args: Args,
    base: features_base::Args,
    m: MarketView,
    alpha: Term,
    risk: Term,
    names: Seq<Seq<char>>,
    ics: Seq<(String, Wire<Series>)>,
    b: Builder,
)
    requires
        !args.neutralize,
        args.universe_size >= 2,
        base.universe_size == args.universe_size,
        base.horizon == args.horizon,
        base.rank == args.rank,
    ensures
        are_ics(
            ics,
            b,
            m,
            names,
            scored_panel(args, m, alpha, risk),
            Some(daily_universe(m, args.universe_size)),
            args.horizon,
            args.rank,
        ) <==> are_ics(
            ics,
            b,
            m,
            names,
            alpha,
            features_base::screen_universe(base, m),
            base.horizon,
            base.rank,
        ),
{
}

/// Wires the screen over the market data: the panels, the projection when it
/// is asked for, and the information coefficient of each column. A
/// cross-section of less than two symbols, or a missing field, is refused.
///
/// `industries` tags each symbol, and `catalog` is the Alpha101 catalog,
/// needed when it is selected.
pub fn build_screen(
    b: &mut Builder,
    args: &Args,
    m: &MarketData,
    industries: &Vec<String>,
    catalog: Option<Catalog>,
) -> (r: Result<Screen, ScreenError>)
    requires
        old(b).ordered(),
        m.belongs(*old(b)),
        args.alpha_feature_sets@.contains(AlphaFeatureSet::Alpha101) ==> catalog is Some,
        args.alpha_feature_sets@.contains(AlphaFeatureSet::Alpha101)
            ==> catalog->0.ctx.belongs(*old(b)),
    ensures
        final(b).grown(*old(b)),
        match r {
            Ok(s) => {
                &&& args.universe_size >= 2
                &&& m@.has_all(fields_read(*args))
                &&& s.panels.show(
                    *final(b),
                    m@,
                    args.alpha_feature_sets@,
                    args.risk_feature_sets@,
                    texts(industries@),
                    given(catalog),
                    Finish::Normalize,
                    Finish::Normalize,
                )
                &&& are_ics(
                    s.ics@,
                    *final(b),
                    m@,
                    texts(s.panels.alpha.schema@),
                    scored_panel(*args, m@, s.panels.alpha.panel@, s.panels.risk.panel@),
                    Some(daily_universe(m@, args.universe_size)),
                    args.horizon,
                    args.rank,
                )
            },
            Err(ScreenError::NoCrossSection) => args.universe_size < 2,
            Err(ScreenError::NoField(message)) => args.universe_size >= 2 && exists|i: int|
                #[trigger]
                first_absent(m@, fields_read(*args), i) && message@ == no_such_field(
                    fields_read(*args)[i]@,
                    m@.fields.len(),
                ),
        },
{
    if args.universe_size < 2 {
        return Err(ScreenError::NoCrossSection);
    }
    let mut fields: Vec<&'static str> = Vec::new();
    note_alpha(&mut fields, &args.alpha_feature_sets);
    assert(fields@ =~= alpha_fields(args.alpha_feature_sets@));
    note_risk(&mut fields, &args.risk_feature_sets);
    note(&mut fields, VOLUME_FIELDS.as_slice());
    assert(fields@ == fields_read(*args));
    if let Some(message) = m.absent(fields.as_slice()) {
        return Err(ScreenError::NoField(message));
    }
    proof {
        let alpha = alpha_fields(args.alpha_feature_sets@);
        let risk = risk_fields(args.risk_feature_sets@);
        has_both(m@, alpha + risk, VOLUME_FIELDS@);
        has_both(m@, alpha, risk);
        ready_for(m@, args.alpha_feature_sets@, args.risk_feature_sets@);
        assert(m@.has_field(VOLUME_FIELDS@[0]@));
    }
    let panels = build_features(
        b,
        m,
        &args.alpha_feature_sets,
        &args.risk_feature_sets,
        industries,
        catalog,
    );
    assert(m.belongs(*b));
    let daily = m.daily;
    let universe = build_universe(b, m, args.universe_size);
    let alpha = panels.alpha.panel;
    let risk = panels.risk.panel;
    let panel: Wire<Matrix> = if args.neutralize {
        let params: Vec<(String, Param)> = Vec::new();
        assert(params_view(params@) =~= seq![]);
        let inputs = vec![daily.index(), alpha.index(), risk.index(), universe.index()];
        let ghost given = seq![daily@, alpha@, risk@, universe@];
        b.module("screens.neutralize", params, inputs, Ghost(given))
    } else {
        alpha
    };
    let ghost weights = Some(universe@);
    let ics = build_ics(
        b,
        m,
        &panels.alpha.schema,
        panel,
        Some(universe),
        args.horizon,
        args.rank,
        Ghost(weights),
    );
    Ok(Screen { panels, ics })
}

/// Neutral scores are of the alpha panel projected off the risk panel, over
/// the stocks of the daily universe; without the projection they are of the
/// alpha panel itself.
pub proof fn the_projection_reads_both_panels(args: Args, m: MarketView, alpha: Term, risk: Term)
    ensures
        ({
            let panel = scored_panel(args, m, alpha, risk);
            &&& !args.neutralize ==> panel == alpha
            &&& args.neutralize ==> asks(panel, "screens.neutralize"@) && panel.inputs.len() == 4
                && panel.inputs[0] == m.daily && panel.inputs[1] == alpha && panel.inputs[2]
                == risk && panel.inputs[3] == daily_universe(m, args.universe_size)
        }),
{
}

} // verus!
