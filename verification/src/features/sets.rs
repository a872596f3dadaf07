//! The selectable feature sets.
use vstd::prelude::*;

verus! {

/// The selectable alpha feature sets.
#[derive(Clone, Copy, Debug, PartialEq, Eq, Structural)]
pub enum AlphaFeatureSet {
    /// The WorldQuant Alpha101 catalog. Costly: thousands of graph nodes,
    /// many of them window-scanning.
    Alpha101,
    /// The Qlib Alpha158 catalog. Costly: hundreds of graph nodes, many of
    /// them window-scanning.
    Alpha158,
    /// The Qlib Alpha360 catalog: the trailing 60-day window of six daily
    /// series. Costly in memory: 354 lag nodes, each buffering its own window
    /// of the whole cross-section.
    Alpha360,
    /// The CICC fundamental factor catalog. Needs around 1000 days of
    /// warm-up: a 365-day trailing mean under a 365-day lag, plus the
    /// predictors' minimum of periods, before the first prediction.
    CiccFund,
    /// The CICC price-volume factor catalog. Needs around 700 days of
    /// warm-up: 252-tick windows plus the predictors' minimum of periods,
    /// before the first prediction.
    CiccPv,
}

/// The selectable risk feature sets. The risk panel always carries the
/// `COUNTRY` intercept on top of the selection.
#[derive(Clone, Copy, Debug, PartialEq, Eq, Structural)]
pub enum RiskFeatureSet {
    /// The Barra CNE5-style descriptor catalog. Needs around 1100 days of
    /// warm-up: the 504-tick momentum window plus the predictors' minimum of
    /// periods, before the first prediction.
    Barra,
    /// Industry dummy exposures: one static `0/1` column per industry tag of
    /// the symbol list. Mind the column count against small universes: the
    /// factor regression sees one column per industry.
    Industry,
}

/// The selectable feature sets of the Markowitz strategy.
#[derive(Clone, Copy, Debug, PartialEq, Eq, Structural)]
pub enum FeatureSet {
    /// The hand-written baseline catalog.
    Basic,
    /// The WorldQuant Alpha101 catalog. Costly: thousands of graph nodes,
    /// many of them window-scanning.
    Alpha101,
    /// The Qlib Alpha158 catalog. Costly: hundreds of graph nodes, many of
    /// them window-scanning.
    Alpha158,
    /// The Qlib Alpha360 catalog: the trailing 60-day window of six daily
    /// series. Costly in memory: 354 lag nodes, each buffering its own window
    /// of the whole cross-section.
    Alpha360,
}

/// Whether the selection holds `set`.
pub fn selects_alpha(sets: &Vec<AlphaFeatureSet>, set: AlphaFeatureSet) -> (r: bool)
    ensures
        r == sets@.contains(set),
{
    for i in 0..sets.len()
        invariant
            forall|k: int| 0 <= k < i ==> sets@[k] != set,
    {
        if sets[i] == set {
            assert(sets@[i as int] == set);
            return true;
        }
    }
    false
}

/// Whether the selection holds `set`.
pub fn selects_risk(sets: &Vec<RiskFeatureSet>, set: RiskFeatureSet) -> (r: bool)
    ensures
        r == sets@.contains(set),
{
    for i in 0..sets.len()
        invariant
            forall|k: int| 0 <= k < i ==> sets@[k] != set,
    {
        if sets[i] == set {
            assert(sets@[i as int] == set);
            return true;
        }
    }
    false
}

/// Whether the selection holds `set`.
pub fn selects(sets: &Vec<FeatureSet>, set: FeatureSet) -> (r: bool)
    ensures
        r == sets@.contains(set),
{
    for i in 0..sets.len()
        invariant
            forall|k: int| 0 <= k < i ==> sets@[k] != set,
    {
        if sets[i] == set {
            assert(sets@[i as int] == set);
            return true;
        }
    }
    false
}

} // verus!
