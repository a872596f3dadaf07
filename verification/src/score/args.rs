//! What the scorer is asked to do.
use vstd::prelude::*;

use crate::double::{Double, Figure};
use crate::graph::TraderParams;
use crate::time::{
    Instant, MAX_DAYS, calendar_so_far, day_calendar_so_far, days_earlier, ends_anyway,
    horizon_so_far, listed, rebalances_so_far, told_so_far, warm_up_from,
};

verus! {

/// The scorer's settings. Every choice that determines the number rather than
/// the strategy is made here, and not by a submission.
#[derive(Debug)]
pub struct Args {
    /// Directory of the Parquet market panels.
    pub data_dir: String,
    /// The submitted weights files.
    pub weights: Vec<String>,
    /// Path of the NAV table to write.
    pub output: String,
    /// First date to score; also anchors the benchmark calendar.
    pub start: Instant,
    /// First date not to score.
    pub end: Option<Instant>,
    /// Calendar days of price history read before `start`, to warm the quote
    /// book.
    pub warmup_days: usize,
    /// Rebalance interval of the benchmark index, in calendar days.
    pub benchmark_rebalance_every: usize,
    /// Number of stocks in the benchmark index.
    pub benchmark_size: usize,
    /// The greatest gross exposure a book may ask for.
    pub max_gross: Figure,
    pub initial_cash: Double,
    /// Fee on a buy, as a fraction of the traded amount.
    pub fee_rate_buy: Double,
    /// Fee on a sell, as a fraction of the traded amount.
    pub fee_rate_sell: Double,
    /// Least fee of a fill.
    pub fee_min: Double,
}

impl Args {
    /// Whether the calendar's days can be told in nanoseconds.
    pub open spec fn steps_in_range(self) -> bool {
        self.benchmark_rebalance_every <= MAX_DAYS
    }

    /// The trader that every book and the benchmark are followed by.
    pub open spec fn trader(self) -> TraderParams {
        TraderParams {
            delayed: true,
            initial_cash: self.initial_cash,
            fee_base_buy: self.fee_min,
            fee_base_sell: self.fee_min,
            fee_rate_buy: self.fee_rate_buy,
            fee_rate_sell: self.fee_rate_sell,
        }
    }

    /// Where the panels are read from: `start` less the warm-up.
    pub fn data_start(&self) -> (r: Option<Instant>)
        requires
            self.warmup_days <= MAX_DAYS,
        ensures
            r == Some(days_earlier(self.start, self.warmup_days as int)),
    {
        Some(warm_up_from(self.start, self.warmup_days as i64))
    }

    /// The benchmark's rebalance calendar, as far as it has passed by `now`.
    pub fn benchmark_instants_at(&self, now: Instant) -> (r: Vec<Instant>)
        requires
            self.steps_in_range(),
            self.start.nanos < horizon_so_far(self.end, now).nanos
                ==> self.benchmark_rebalance_every > 0,
        ensures
            r@ == rebalances_so_far(
                self.start,
                self.end,
                now,
                self.benchmark_rebalance_every as int,
            ),
    {
        day_calendar_so_far(self.start, self.end, now, self.benchmark_rebalance_every as i64)
    }

    /// The benchmark's rebalance calendar, as far as it has passed. It is
    /// empty if `end` leaves nothing to list; any other is `None` when no
    /// [`Instant`] can name the present.
    pub fn benchmark_instants(&self) -> (r: Option<Vec<Instant>>)
        requires
            self.steps_in_range(),
            ends_anyway(self.start, self.end, self.benchmark_rebalance_every as int),
        ensures
            exists|reading: Option<Instant>|
                listed(r) == #[trigger] told_so_far(
                    self.start,
                    self.end,
                    reading,
                    self.benchmark_rebalance_every as int,
                ),
    {
        calendar_so_far(self.start, self.end, self.benchmark_rebalance_every as i64)
    }

    /// The trader that every book and the benchmark are followed by, so that
    /// their NAV curves compare: a book fills at the quotes of the next
    /// trading day.
    pub fn trader_params(&self) -> (r: TraderParams)
        ensures
            r == self.trader(),
    {
        TraderParams {
            delayed: true,
            initial_cash: self.initial_cash,
            fee_base_buy: self.fee_min,
            fee_base_sell: self.fee_min,
            fee_rate_buy: self.fee_rate_buy,
            fee_rate_sell: self.fee_rate_sell,
        }
    }
}

/// Every book is followed alike: it fills at the quotes of the next trading
/// day, starts with the given cash, and pays the rate of a side on that side
/// and the least fee on both.
pub proof fn every_book_pays_the_same_fees(args: Args)
    ensures
        args.trader().delayed,
        args.trader().initial_cash == args.initial_cash,
        args.trader().fee_rate_buy == args.fee_rate_buy,
        args.trader().fee_rate_sell == args.fee_rate_sell,
        args.trader().fee_base_buy == args.fee_min,
        args.trader().fee_base_sell == args.fee_min,
{
}

} // verus!
