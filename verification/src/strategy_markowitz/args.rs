//! What the Markowitz strategy is asked to do.
use vstd::prelude::*;

use crate::double::{Double, Figure};
use crate::features::sets::FeatureSet;
use crate::plans::{resolve_universe_size, universe_size};
use crate::time::{
    Instant, MAX_DAYS, calendar_told, day_calendar, days_earlier, listed, present_calendar,
    rebalances, warm_up_from,
};

verus! {

/// The strategy's settings.
#[derive(Debug)]
pub struct Args {
    /// Directory of the market panels.
    pub data_dir: String,
    /// Path of the NAV table to write, one column per variant.
    pub output: String,
    /// Weights below this threshold are left out of the weights table.
    pub min_weight: Double,
    /// First date to trade; also the anchor of the rebalance calendar.
    pub start: Instant,
    /// First date not to trade.
    pub end: Option<Instant>,
    /// Calendar days of data read before `start`, to warm up the rolling
    /// features, the trailing aggregates and the predictors' windows.
    pub warmup_days: i64,
    /// Rebalance interval, in calendar days.
    pub rebalance_every: i64,
    /// Number of stocks in the tradable universe, zero for the whole market.
    pub universe_size: usize,
    pub initial_cash: Double,
    /// The feature sets of the panel.
    pub features: Vec<FeatureSet>,
    /// Ridge penalty of the mean predictor.
    pub ridge_alpha: Double,
    /// The risk aversions to sweep.
    pub risk_aversion: Vec<Figure>,
}

impl Args {
    /// The size of the tradable universe in a market of `n` symbols, with
    /// zero for the whole market.
    pub fn resolved_universe_size(&self, n: usize) -> (r: usize)
        ensures
            r == universe_size(self.universe_size, n),
    {
        resolve_universe_size(self.universe_size, n)
    }

    /// Where the panels are read from: `start` less the warm-up.
    pub fn data_start(&self) -> (r: Option<Instant>)
        requires
            -MAX_DAYS <= self.warmup_days <= MAX_DAYS,
        ensures
            r == Some(days_earlier(self.start, self.warmup_days as int)),
    {
        Some(warm_up_from(self.start, self.warmup_days))
    }

    /// The rebalance calendar as of `now`: every `rebalance_every` calendar
    /// days from `start` up to `end`, or to `now` when there is no end.
    pub fn rebalance_instants_at(&self, now: Instant) -> (r: Vec<Instant>)
        requires
            0 < self.rebalance_every <= MAX_DAYS,
        ensures
            r@ == rebalances(self.start, self.end, now, self.rebalance_every as int),
    {
        day_calendar(self.start, self.end, now, self.rebalance_every)
    }

    /// The rebalance calendar, up to `end` or up to the present when it is
    /// open; an open one is `None` when no [`Instant`] can name the present.
    pub fn rebalance_instants(&self) -> (r: Option<Vec<Instant>>)
        requires
            0 < self.rebalance_every <= MAX_DAYS,
        ensures
            exists|reading: Option<Instant>|
                listed(r) == #[trigger] calendar_told(
                    self.start,
                    self.end,
                    reading,
                    self.rebalance_every as int,
                ),
    {
        present_calendar(self.start, self.end, self.rebalance_every)
    }
}

} // verus!
