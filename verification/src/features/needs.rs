//! The panel fields that a selection of features reads.
use vstd::prelude::*;

use crate::data::MarketView;
use crate::features::barra::BARRA_FIELDS;
use crate::features::cicc_fund::FUND_FIELDS;
use crate::features::panels::{alpha_ready, risk_ready};
use crate::features::sets::{AlphaFeatureSet, RiskFeatureSet, selects_alpha, selects_risk};

verus! {

/// The field that the price-volume catalog reads, beside the prices.
pub const VOLUME_FIELDS: [&'static str; 1] = ["shares.circulating"];

/// The names, if they are called for.
pub open spec fn names_if(wanted: bool, names: Seq<&'static str>) -> Seq<&'static str> {
    if wanted {
        names
    } else {
        seq![]
    }
}

/// The fields that an alpha selection reads.
pub open spec fn alpha_fields(sets: Seq<AlphaFeatureSet>) -> Seq<&'static str> {
    names_if(sets.contains(AlphaFeatureSet::CiccFund), FUND_FIELDS@) + names_if(
        sets.contains(AlphaFeatureSet::CiccPv),
        VOLUME_FIELDS@,
    )
}

/// The fields that a risk selection reads.
pub open spec fn risk_fields(sets: Seq<RiskFeatureSet>) -> Seq<&'static str> {
    names_if(sets.contains(RiskFeatureSet::Barra), BARRA_FIELDS@)
}

/// Adds names behind others.
pub(crate) fn note(out: &mut Vec<&'static str>, more: &[&'static str])
    ensures
        final(out)@ == old(out)@ + more@,
{
    let ghost before = out@;
    for i in 0..more.len()
        invariant
            out@ == before + more@.take(i as int),
    {
        out.push(more[i]);
        assert(more@.take(i + 1) =~= more@.take(i as int).push(more@[i as int]));
    }
    assert(more@.take(more@.len() as int) =~= more@);
}

/// Adds the fields that an alpha selection reads.
pub(crate) fn note_alpha(out: &mut Vec<&'static str>, sets: &Vec<AlphaFeatureSet>)
    ensures
        final(out)@ == old(out)@ + alpha_fields(sets@),
{
    let ghost before = out@;
    if selects_alpha(sets, AlphaFeatureSet::CiccFund) {
        note(out, FUND_FIELDS.as_slice());
    }
    if selects_alpha(sets, AlphaFeatureSet::CiccPv) {
        note(out, VOLUME_FIELDS.as_slice());
    }
    assert(out@ =~= before + alpha_fields(sets@));
}

/// Adds the fields that a risk selection reads.
pub(crate) fn note_risk(out: &mut Vec<&'static str>, sets: &Vec<RiskFeatureSet>)
    ensures
        final(out)@ == old(out)@ + risk_fields(sets@),
{
    let ghost before = out@;
    if selects_risk(sets, RiskFeatureSet::Barra) {
        note(out, BARRA_FIELDS.as_slice());
    }
    assert(out@ =~= before + risk_fields(sets@));
}

/// Market data that has the names of two lists has those of each.
pub(crate) proof fn has_both(m: MarketView, a: Seq<&'static str>, b: Seq<&'static str>)
    requires
        m.has_all(a + b),
    ensures
        m.has_all(a),
        m.has_all(b),
{
    let both = a + b;
    assert forall|i: int| 0 <= i < a.len() implies m.has_field((#[trigger] a[i])@) by {
        assert(both[i] == a[i]);
        assert(m.has_field(both[i]@));
    }
    assert forall|i: int| 0 <= i < b.len() implies m.has_field((#[trigger] b[i])@) by {
        assert(both[i + a.len()] == b[i]);
        assert(m.has_field(both[i + a.len()]@));
    }
}

/// Market data with the fields of a selection is ready for it.
pub(crate) proof fn ready_for(
    m: MarketView,
    alpha_sets: Seq<AlphaFeatureSet>,
    risk_sets: Seq<RiskFeatureSet>,
)
    requires
        m.has_all(alpha_fields(alpha_sets)),
        m.has_all(risk_fields(risk_sets)),
    ensures
        alpha_ready(m, alpha_sets),
        risk_ready(m, risk_sets),
{
    has_both(
        m,
        names_if(alpha_sets.contains(AlphaFeatureSet::CiccFund), FUND_FIELDS@),
        names_if(alpha_sets.contains(AlphaFeatureSet::CiccPv), VOLUME_FIELDS@),
    );
    if alpha_sets.contains(AlphaFeatureSet::CiccPv) {
        assert(m.has_field(VOLUME_FIELDS@[0]@));
    }
}

} // verus!
