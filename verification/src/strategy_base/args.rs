//! What the factor model strategy is asked to do.
use vstd::prelude::*;

use crate::double::{Double, Figure};
use crate::features::sets::{AlphaFeatureSet, RiskFeatureSet};
use crate::plans::{resolve_universe_size, universe_size};
use crate::time::{
    Instant, MAX_DAYS, calendar_told, day_calendar, days_earlier, ends_anyway, horizon, listed,
    present_calendar, rebalances, warm_up_from,
};
use crate::trade::Costs;

verus! {

/// The selectable mean predictors.
#[derive(Clone, Copy, Debug, PartialEq, Eq, Structural)]
pub enum AlphaModelKind {
    /// The incremental factor model: regresses returns on the alpha panel
    /// cross-sectionally.
    FactorModel,
}

/// The selectable covariance predictors.
#[derive(Clone, Copy, Debug, PartialEq, Eq, Structural)]
pub enum RiskModelKind {
    /// The incremental factor model: regresses returns on the risk panel
    /// cross-sectionally.
    FactorModel,
    /// The shrinkage estimator: a sample covariance over the last samples,
    /// shrunk towards its diagonal and truncated to its top eigenpairs. It
    /// ignores the risk panel.
    Shrinkage,
}

/// The selectable portfolio optimizers.
#[derive(Clone, Copy, Debug, PartialEq, Eq, Structural)]
pub enum PortfolioKind {
    /// The Markowitz mean-variance optimizer: maximizes the expected return
    /// less the risk aversion times the variance.
    MarkowitzCvxpy,
}

/// The strategy's settings.
#[derive(Debug)]
pub struct Args {
    /// Directory of the market panels.
    pub data_dir: String,
    /// Directory of the Python operator modules.
    pub python_ops_dir: String,
    /// Path of the NAV table to write.
    pub output: String,
    /// Weights below this threshold are left out of the weights table.
    pub min_weight: Double,
    /// First date to trade; also the anchor of the rebalance calendar.
    pub start: Instant,
    /// First date not to trade.
    pub end: Option<Instant>,
    /// Calendar days of data read before `start`.
    pub warmup_days: usize,
    /// Rebalance interval, in calendar days.
    pub rebalance_every: usize,
    /// Number of stocks in the tradable universe, zero for the whole market.
    pub universe_size: usize,
    pub alpha_feature_sets: Vec<AlphaFeatureSet>,
    pub risk_feature_sets: Vec<RiskFeatureSet>,
    /// Sampling periods a stock needs before either model predicts.
    pub min_periods: usize,
    pub alpha_model: AlphaModelKind,
    /// Ridge penalty of the alpha model.
    pub ridge_l2: Double,
    /// Halflife of the factor premiums, in trading days.
    pub premium_halflife: Double,
    pub risk_model: RiskModelKind,
    /// Eigenpairs that the shrinkage risk model keeps.
    pub risk_rank: usize,
    /// Trading days of history that the shrinkage risk model keeps.
    pub risk_window: usize,
    /// Halflife of the factor covariances, in trading days.
    pub covariance_halflife: Double,
    /// Halflife of the specific variances, in trading days.
    pub specific_halflife: Double,
    pub portfolio: PortfolioKind,
    /// Whether risk is measured relative to the cap-weighted index.
    pub benchmark_relative: bool,
    /// The risk aversions to sweep.
    pub risk_aversion: Vec<Figure>,
    pub initial_cash: Double,
    /// What trading costs, in every variant and in the index.
    pub costs: Costs,
}

/// The module of a mean predictor.
pub open spec fn alpha_name(kind: AlphaModelKind) -> Seq<char> {
    match kind {
        AlphaModelKind::FactorModel => "alpha_models.factor_model"@,
    }
}

/// The module of a covariance predictor.
pub open spec fn risk_name(kind: RiskModelKind) -> Seq<char> {
    match kind {
        RiskModelKind::FactorModel => "risk_models.factor_model"@,
        RiskModelKind::Shrinkage => "risk_models.shrinkage"@,
    }
}

/// The module of a portfolio optimizer.
pub open spec fn portfolio_name(kind: PortfolioKind) -> Seq<char> {
    match kind {
        PortfolioKind::MarkowitzCvxpy => "portfolio.markowitz_cvxpy"@,
    }
}

impl Args {
    /// Where the panels are read from: `start` less the warm-up.
    pub fn data_start(&self) -> (r: Option<Instant>)
        requires
            self.warmup_days <= MAX_DAYS,
        ensures
            r == Some(days_earlier(self.start, self.warmup_days as int)),
    {
        Some(warm_up_from(self.start, self.warmup_days as i64))
    }

    /// The rebalance calendar as of `now`: every `rebalance_every` calendar
    /// days from `start` up to `end`, or to `now` when there is no end.
    pub fn rebalance_instants_at(&self, now: Instant) -> (r: Vec<Instant>)
        requires
            self.rebalance_every <= MAX_DAYS,
            self.start.nanos < horizon(self.end, now).nanos ==> self.rebalance_every > 0,
        ensures
            r@ == rebalances(self.start, self.end, now, self.rebalance_every as int),
    {
        day_calendar(self.start, self.end, now, self.rebalance_every as i64)
    }

    /// The rebalance calendar, up to `end` or up to the present when it is
    /// open; an open one is `None` when no [`Instant`] can name the present.
    pub fn rebalance_instants(&self) -> (r: Option<Vec<Instant>>)
        requires
            self.rebalance_every <= MAX_DAYS,
            ends_anyway(self.start, self.end, self.rebalance_every as int),
        ensures
            exists|reading: Option<Instant>|
                listed(r) == #[trigger] calendar_told(
                    self.start,
                    self.end,
                    reading,
                    self.rebalance_every as int,
                ),
    {
        present_calendar(self.start, self.end, self.rebalance_every as i64)
    }

    /// The size of the tradable universe in a market of `n` symbols, with
    /// zero for the whole market.
    pub fn resolved_universe_size(&self, n: usize) -> (r: usize)
        ensures
            r == universe_size(self.universe_size, n),
    {
        resolve_universe_size(self.universe_size, n)
    }

    /// The module of the alpha model.
    pub fn alpha_module(&self) -> (r: &'static str)
        ensures
            r@ == alpha_name(self.alpha_model),
    {
        match self.alpha_model {
            AlphaModelKind::FactorModel => "alpha_models.factor_model",
        }
    }

    /// The module of the risk model.
    pub fn risk_module(&self) -> (r: &'static str)
        ensures
            r@ == risk_name(self.risk_model),
    {
        match self.risk_model {
            RiskModelKind::FactorModel => "risk_models.factor_model",
            RiskModelKind::Shrinkage => "risk_models.shrinkage",
        }
    }

    /// The module of the portfolio optimizer.
    pub fn portfolio_module(&self) -> (r: &'static str)
        ensures
            r@ == portfolio_name(self.portfolio),
    {
        match self.portfolio {
            PortfolioKind::MarkowitzCvxpy => "portfolio.markowitz_cvxpy",
        }
    }
}

} // verus!
