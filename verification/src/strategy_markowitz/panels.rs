//! The alpha and risk panels with the Markowitz strategy's finalizer.
use vstd::prelude::*;

use crate::data::MarketData;
use crate::features::panels::{
    Catalog, Finish, Panels, alpha_entries, alpha_ready, build_panels, distinct, fills_gaps,
    finished, finished_columns, given, risk_ready, some_are_kept, style_entries,
};
use crate::features::sets::{AlphaFeatureSet, RiskFeatureSet};
use crate::graph::{Builder, Op, Unary, texts};

verus! {

/// The message of an alpha selection without features.
pub const NO_ALPHA: &'static str = "no alpha features selected";

/// Builds the alpha and the risk panel with the Markowitz strategy's
/// finalizer: the alpha entries winsorized and imputed, the risk styles also
/// z-scored, since the risk model reads them as exposures directly. An alpha
/// selection without features is refused.
pub fn build_features(
    b: &mut Builder,
    m: &MarketData,
    alpha_sets: &Vec<AlphaFeatureSet>,
    risk_sets: &Vec<RiskFeatureSet>,
    industries: &Vec<String>,
    catalog: Option<Catalog>,
) -> (r: Result<Panels, String>)
    requires
        old(b).ordered(),
        m.belongs(*old(b)),
        alpha_ready(m@, alpha_sets@),
        risk_ready(m@, risk_sets@),
        alpha_sets@.contains(AlphaFeatureSet::Alpha101) ==> catalog is Some,
        alpha_sets@.contains(AlphaFeatureSet::Alpha101) ==> catalog->0.ctx.belongs(*old(b)),
    ensures
        final(b).grown(*old(b)),
        match r {
            Ok(panels) => {
                &&& alpha_entries(m@, alpha_sets@, given(catalog)).len() > 0
                &&& panels.show(
                    *final(b),
                    m@,
                    alpha_sets@,
                    risk_sets@,
                    texts(industries@),
                    given(catalog),
                    Finish::Impute,
                    Finish::Expose,
                )
                &&& forall|i: int|
                    0 <= i < panels.alpha.panel@.inputs.len() ==> fills_gaps(
                        #[trigger] panels.alpha.panel@.inputs[i],
                    )
                &&& forall|i: int|
                    0 <= i < distinct(
                        style_entries(m@, alpha_sets@, risk_sets@, given(catalog)),
                    ).len() ==> (#[trigger] panels.risk.panel@.inputs[i]).op == Op::Unary(
                        Unary::Standardize,
                    ) && fills_gaps(panels.risk.panel@.inputs[i].inputs[0])
            },
            Err(message) => {
                &&& alpha_entries(m@, alpha_sets@, given(catalog)).len() == 0
                &&& message@ == NO_ALPHA@
            },
        },
{
    let ghost entries = alpha_entries(m@, alpha_sets@, given(catalog));
    let panels = build_panels(
        b,
        m,
        alpha_sets,
        risk_sets,
        industries,
        catalog,
        Finish::Impute,
        Finish::Expose,
    );
    proof {
        some_are_kept(entries, entries.len() as int);
        assert(texts(panels.alpha.schema@).len() == distinct(entries).len());
        let styles = distinct(style_entries(m@, alpha_sets@, risk_sets@, given(catalog)));
        assert forall|i: int| 0 <= i < panels.alpha.panel@.inputs.len() implies fills_gaps(
            #[trigger] panels.alpha.panel@.inputs[i],
        ) by {
            let kept = distinct(entries)[i].1;
            assert(panels.alpha.panel@.inputs[i] == finished(Finish::Impute, kept));
            finished_columns(kept);
        }
        assert forall|i: int| 0 <= i < styles.len() implies (#[trigger] panels.risk.panel@.inputs[i]).op
            == Op::Unary(Unary::Standardize) && fills_gaps(
            panels.risk.panel@.inputs[i].inputs[0],
        ) by {
            assert(panels.risk.panel@.inputs[i] == finished(Finish::Expose, styles[i].1));
            finished_columns(styles[i].1);
        }
    }
    if panels.alpha.schema.len() == 0 {
        return Err(NO_ALPHA.to_string());
    }
    Ok(panels)
}

} // verus!
