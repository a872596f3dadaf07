//! The chip distribution: at what price today's holders bought.
//!
//! Each day deposits its turnover as weight at that day's close, and every
//! older chip decays by the share that changed hands. A day's turnover
//! multiplies every older chip by the same survival factor, so the live chips
//! are kept in a ring of slots, one per row of the window, addressed by the
//! row's number modulo the window: an arriving row takes the slot that the
//! row leaving the window frees. [`ChipDist`] decides what happens to which
//! slot as the window moves; the weights, and the power sums that go with
//! them, are floating-point state that follows its [`Step`]s in order.
use vstd::prelude::*;

use crate::double::Double;
use crate::double::SIGN_BIT;
use crate::meaning::closest;

verus! {

/// The bit pattern of `1.0`.
pub const ONE: u64 = 0x3ff0_0000_0000_0000;

/// The bit patterns of the band edges `0.10`, `0.02`, `-0.02` and `-0.10`.
pub const LARGE_GAIN: u64 = 0x3fb9_9999_9999_999a;

pub const SMALL_GAIN: u64 = 0x3f94_7ae1_47ae_147b;

pub const SMALL_LOSS: u64 = 0xbf94_7ae1_47ae_147b;

pub const LARGE_LOSS: u64 = 0xbfb9_9999_9999_999a;

/// The number of bins of the holder-return histogram, 0.02 wide each, over
/// the returns from -0.5 to 0.5.
pub const BINS: usize = 50;

/// The names of the statistics, in column order.
pub const CHIP_NAMES: [&'static str; 10] = [
    "distribution_ret_avg",
    "distribution_ret_std",
    "distribution_ret_skew",
    "distribution_ret_kurt",
    "distribution_max_prob_ret",
    "distribution_bal",
    "distribution_profit_l",
    "distribution_profit_s",
    "distribution_loss_s",
    "distribution_loss_l",
];

/// A turnover held between zero and one; one that is not finite is no trade.
pub open spec fn clamped(t: Double) -> Double {
    let zero = Double { bits: 0 };
    let one = Double { bits: ONE };
    if !t.finite() || t.below(zero) {
        zero
    } else if one.below(t) {
        one
    } else {
        t
    }
}

/// Holds a turnover between zero and one.
pub fn clamp_turnover(t: Double) -> (r: Double)
    ensures
        r == clamped(t),
{
    let zero = Double { bits: 0 };
    let one = Double { bits: ONE };
    if !t.is_finite() || t.is_below(zero) {
        zero
    } else if one.is_below(t) {
        one
    } else {
        t
    }
}

/// One lane of one row: the close, the clamped turnover, and the survival
/// factor `1 - turnover`.
#[derive(Clone, Copy, Debug, PartialEq, Eq, Structural)]
pub struct Cell {
    pub price: Double,
    pub turnover: Double,
    pub survival: Double,
}

/// The cell of a close and a turnover, whatever the turnover is; `survival`
/// is `1 - turnover` as the engine computes it.
pub open spec fn cell_of(
    price: Double,
    turnover: Double,
    survival: spec_fn(Double) -> Double,
) -> Cell {
    Cell { price, turnover: clamped(turnover), survival: survival(clamped(turnover)) }
}

/// The rows of cells of a stream of closes and turnovers.
pub open spec fn rows_of(
    stream: Seq<Seq<(Double, Double)>>,
    survival: spec_fn(Double) -> Double,
) -> Seq<Seq<Cell>> {
    stream.map_values(
        |row: Seq<(Double, Double)>|
            row.map_values(|e: (Double, Double)| cell_of(e.0, e.1, survival)),
    )
}

/// The stream with every turnover clamped: one that is not finite is zero,
/// and any other the nearest between zero and one.
pub open spec fn with_clamped(stream: Seq<Seq<(Double, Double)>>) -> Seq<Seq<(Double, Double)>> {
    stream.map_values(
        |row: Seq<(Double, Double)>| row.map_values(|e: (Double, Double)| (e.0, clamped(e.1))),
    )
}

impl Cell {
    /// Whether the row decays older chips.
    pub open spec fn decays(self) -> bool {
        self.survival.below(Double { bits: ONE })
    }

    /// Whether the row deposits a chip: it traded, at a usable price.
    pub open spec fn deposits(self) -> bool {
        (Double { bits: 0 }).below(self.turnover) && self.price.usable()
    }
}

/// What happens to the chips of a lane.
#[derive(Clone, Copy, Debug, PartialEq, Eq, Structural)]
pub enum Step {
    /// The chip in a slot leaves: its contribution leaves the sums, and the
    /// slot is dead.
    Evict { lane: usize, slot: usize },
    /// Every chip, and every sum, is multiplied by a survival factor.
    Decay { lane: usize, by: Double },
    /// A chip enters a slot, and its contribution the sums.
    Deposit { lane: usize, slot: usize, price: Double, weight: Double },
    /// A slot is dead.
    Clear { lane: usize, slot: usize },
}

/// The steps of one lane of an arriving row.
pub open spec fn cell_steps(cell: Cell, lane: int, slot: int) -> Seq<Step> {
    let decay = if cell.decays() {
        seq![Step::Decay { lane: lane as usize, by: cell.survival }]
    } else {
        seq![]
    };
    decay.push(
        if cell.deposits() {
            Step::Deposit {
                lane: lane as usize,
                slot: slot as usize,
                price: cell.price,
                weight: cell.turnover,
            }
        } else {
            Step::Clear { lane: lane as usize, slot: slot as usize }
        },
    )
}

/// The steps of the first `n` lanes of an arriving row.
pub open spec fn row_steps(row: Seq<Cell>, n: int, slot: int) -> Seq<Step>
    decreases n,
{
    if n <= 0 {
        seq![]
    } else {
        row_steps(row, n - 1, slot) + cell_steps(row[n - 1], n - 1, slot)
    }
}

/// The steps by which rows `from` to `to` arrive, in time order. `rows[k]` is
/// row `from + k`.
pub open spec fn arrivals(
    rows: Seq<Seq<Cell>>,
    from: int,
    to: int,
    lanes: int,
    window: int,
) -> Seq<Step>
    decreases to - from,
{
    if to <= from {
        seq![]
    } else {
        arrivals(rows, from, to - 1, lanes, window) + row_steps(
            rows[to - 1 - from],
            lanes,
            (to - 1) % window,
        )
    }
}

/// The steps by which rows `from` to `to` leave.
pub open spec fn departures(from: int, to: int, lanes: int, window: int) -> Seq<Step>
    decreases to - from,
{
    if to <= from {
        seq![]
    } else {
        departures(from, to - 1, lanes, window) + Seq::new(
            lanes as nat,
            |j: int| Step::Evict { lane: j as usize, slot: ((to - 1) % window) as usize },
        )
    }
}

pub open spec fn least(a: int, b: int) -> int {
    if a < b {
        a
    } else {
        b
    }
}

pub open spec fn most(a: int, b: int) -> int {
    if a < b {
        b
    } else {
        a
    }
}

/// The cells of each row, as a sequence.
pub open spec fn cells(rows: Seq<Vec<Cell>>) -> Seq<Seq<Cell>> {
    rows.map_values(|row: Vec<Cell>| row@)
}

/// Follows a moving window over a stream of `(close, turnover)` rows.
#[derive(Debug)]
pub struct ChipDist {
    window: usize,
    lanes: usize,
    /// The rows already taken in: from the first to before the second.
    first: usize,
    last: usize,
}

impl ChipDist {
    pub closed spec fn window(self) -> int {
        self.window as int
    }

    pub closed spec fn lanes(self) -> int {
        self.lanes as int
    }

    /// The first row in the state.
    pub closed spec fn first(self) -> int {
        self.first as int
    }

    /// The row behind the last in the state.
    pub closed spec fn last(self) -> int {
        self.last as int
    }

    /// The first row that is to be taken in when the window starts at
    /// `start`.
    pub open spec fn next(self, start: int) -> int {
        most(self.last(), start)
    }

    /// Follows a window of so many rows; no rows are taken in.
    pub fn new(window: usize) -> (r: ChipDist)
        ensures
            r.window() == window,
            r.lanes() == 0,
            r.first() == 0,
            r.last() == 0,
    {
        ChipDist { window, lanes: 0, first: 0, last: 0 }
    }

    /// Starts over with so many lanes.
    pub fn init(&mut self, lanes: usize)
        ensures
            final(self).window() == old(self).window(),
            final(self).lanes() == lanes,
            final(self).first() == 0,
            final(self).last() == 0,
    {
        self.lanes = lanes;
        self.first = 0;
        self.last = 0;
    }

    /// The rows that [`advance`](Self::advance) will take in for a window
    /// from `start` to `end`: from the first to before the second.
    pub fn pending(&self, start: usize, end: usize) -> (r: (usize, usize))
        ensures
            r.0 == self.next(start as int),
            r.1 == most(self.next(start as int), end as int),
    {
        let from: usize = if self.last < start {
            start
        } else {
            self.last
        };
        let to: usize = if from < end {
            end
        } else {
            from
        };
        (from, to)
    }

    /// Moves the window to the rows from `start` to `end`: the rows that left
    /// it depart, then the pending rows arrive in time order.
    pub fn advance(&mut self, start: usize, end: usize, rows: &Vec<Vec<Cell>>) -> (r: Vec<Step>)
        requires
            old(self).window() > 0,
            rows@.len() == most(old(self).next(start as int), end as int) - old(self).next(
                start as int,
            ),
            forall|i: int| 0 <= i < rows@.len() ==> (#[trigger] rows@[i])@.len() == old(
                self,
            ).lanes(),
        ensures
            final(self).window() == old(self).window(),
            final(self).lanes() == old(self).lanes(),
            final(self).first() == start,
            final(self).last() == end,
            r@ == departures(
                old(self).first(),
                least(start as int, old(self).last()),
                old(self).lanes(),
                old(self).window(),
            ) + arrivals(
                cells(rows@),
                old(self).next(start as int),
                end as int,
                old(self).lanes(),
                old(self).window(),
            ),
    {
        let (w, n) = (self.window, self.lanes);
        let gone: usize = if start < self.last {
            start
        } else {
            self.last
        };
        let mut steps: Vec<Step> = Vec::new();
        let mut i: usize = self.first;
        while i < gone
            invariant
                w > 0,
                w == self.window,
                n == self.lanes,
                i >= self.first,
                i <= gone || i == self.first,
                steps@ == departures(self.first as int, i as int, n as int, w as int),
            decreases
                if i < gone {
                    gone - i
                } else {
                    0
                },
        {
            let ghost before = steps@;
            let slot: usize = i % w;
            for j in 0..n
                invariant
                    w > 0,
                    slot == i % w,
                    steps@ == before + Seq::new(
                        j as nat,
                        |l: int| Step::Evict { lane: l as usize, slot },
                    ),
            {
                steps.push(Step::Evict { lane: j, slot });
                assert(steps@ =~= before + Seq::new(
                    (j + 1) as nat,
                    |l: int| Step::Evict { lane: l as usize, slot },
                ));
            }
            i += 1;
            assert(steps@ =~= departures(self.first as int, i as int, n as int, w as int));
        }
        let ghost left = steps@;
        assert(left =~= departures(self.first as int, gone as int, n as int, w as int));
        let (from, to) = self.pending(start, end);
        let mut i: usize = from;
        assert(steps@ =~= left + arrivals(cells(rows@), from as int, i as int, n as int, w as int));
        while i < to
            invariant
                w > 0,
                from <= i <= to,
                rows@.len() == to - from,
                forall|k: int| 0 <= k < rows@.len() ==> (#[trigger] rows@[k])@.len() == n,
                steps@ == left + arrivals(
                    cells(rows@),
                    from as int,
                    i as int,
                    n as int,
                    w as int,
                ),
            decreases to - i,
        {
            let row = &rows[i - from];
            let slot: usize = i % w;
            let ghost before = steps@;
            for j in 0..n
                invariant
                    w > 0,
                    slot == i % w,
                    row@.len() == n,
                    steps@ == before + row_steps(row@, j as int, slot as int),
            {
                let cell = row[j];
                let ghost done = steps@;
                if cell.survival.is_below(Double { bits: ONE }) {
                    steps.push(Step::Decay { lane: j, by: cell.survival });
                }
                if (Double { bits: 0 }).is_below(cell.turnover) && cell.price.is_usable() {
                    steps.push(
                        Step::Deposit { lane: j, slot, price: cell.price, weight: cell.turnover },
                    );
                } else {
                    steps.push(Step::Clear { lane: j, slot });
                }
                assert(steps@ =~= done + cell_steps(row@[j as int], j as int, slot as int));
                assert(steps@ =~= before + row_steps(row@, j + 1, slot as int));
            }
            assert(cells(rows@)[i - from] == row@);
            i += 1;
            assert(steps@ =~= left + arrivals(
                cells(rows@),
                from as int,
                i as int,
                n as int,
                w as int,
            ));
        }
        self.first = start;
        self.last = end;
        proof {
            if end < from {
                assert(arrivals(cells(rows@), from as int, end as int, n as int, w as int) =~= seq![]);
            }
        }
        steps
    }
}

/// A live chip: the price it was bought at, the weight it was deposited with
/// and the survival factors it has been multiplied by since, in order.
pub ghost struct Chip {
    pub price: Double,
    pub weight: Double,
    pub factors: Seq<Double>,
}

/// The slots of each lane; a dead slot holds no chip.
pub type Ring = Seq<Seq<Option<Chip>>>;

/// A chip decayed once more.
pub open spec fn decayed(chip: Option<Chip>, by: Double) -> Option<Chip> {
    match chip {
        Some(c) => Some(Chip { price: c.price, weight: c.weight, factors: c.factors.push(by) }),
        None => None,
    }
}

/// The ring after a step.
pub open spec fn stepped(ring: Ring, step: Step) -> Ring {
    match step {
        Step::Evict { lane, slot } | Step::Clear { lane, slot } => ring.update(
            lane as int,
            ring[lane as int].update(slot as int, None),
        ),
        Step::Decay { lane, by } => ring.update(
            lane as int,
            ring[lane as int].map_values(|c: Option<Chip>| decayed(c, by)),
        ),
        Step::Deposit { lane, slot, price, weight } => ring.update(
            lane as int,
            ring[lane as int].update(
                slot as int,
                Some(Chip { price, weight, factors: Seq::empty() }),
            ),
        ),
    }
}

/// The ring after a list of steps.
pub open spec fn replayed(ring: Ring, steps: Seq<Step>) -> Ring
    decreases steps.len(),
{
    if steps.len() == 0 {
        ring
    } else {
        stepped(replayed(ring, steps.drop_last()), steps.last())
    }
}

/// The survival factors below one of the rows `from` to `to` of a lane.
pub open spec fn factors(column: spec_fn(int) -> Cell, from: int, to: int) -> Seq<Double>
    decreases to - from,
{
    if to <= from {
        seq![]
    } else if column(to - 1).decays() {
        factors(column, from, to - 1).push(column(to - 1).survival)
    } else {
        factors(column, from, to - 1)
    }
}

/// What is left at `end` of the chip of row `i`: its turnover, decayed by
/// every later row.
pub open spec fn remains(column: spec_fn(int) -> Cell, i: int, end: int) -> Option<Chip> {
    let cell = column(i);
    if cell.deposits() {
        Some(
            Chip {
                price: cell.price,
                weight: cell.turnover,
                factors: factors(column, i + 1, end),
            },
        )
    } else {
        None
    }
}

/// The slot of a row.
pub open spec fn slot_of(row: int, window: int) -> int {
    row % window
}

/// Whether the slots of a lane hold what is left of the chips of the rows
/// from `start` to `end`, and nothing else.
pub open spec fn lane_holds(
    slots: Seq<Option<Chip>>,
    column: spec_fn(int) -> Cell,
    start: int,
    end: int,
    window: int,
) -> bool {
    &&& slots.len() == window
    &&& forall|i: int|
        start <= i < end ==> slots[#[trigger] slot_of(i, window)] == remains(column, i, end)
    &&& forall|s: int|
        0 <= s < window && (forall|i: int| start <= i < end ==> #[trigger] slot_of(i, window) != s)
            ==> #[trigger] slots[s] is None
}

/// Whether every lane holds the chips of the rows from `start` to `end`.
/// `stream(i, j)` is lane `j` of row `i`.
pub open spec fn ring_holds(
    ring: Ring,
    stream: spec_fn(int, int) -> Cell,
    start: int,
    end: int,
    lanes: int,
    window: int,
) -> bool {
    &&& ring.len() == lanes
    &&& forall|j: int|
        0 <= j < lanes ==> lane_holds(#[trigger] ring[j], |i: int| stream(i, j), start, end, window)
}

proof fn slots_differ(i: int, e: int, window: int)
    requires
        0 <= i < e,
        e - i < window,
    ensures
        slot_of(i, window) != slot_of(e, window),
        0 <= slot_of(i, window) < window,
        0 <= slot_of(e, window) < window,
{
    let q = i / window;
    let p = e / window;
    assert(i == window * q + i % window && e == window * p + e % window) by (nonlinear_arith)
        requires
            window > 0,
            q == i / window,
            p == e / window,
    ;
    assert(0 <= i % window < window && 0 <= e % window < window) by (nonlinear_arith)
        requires
            window > 0,
    ;
    if i % window == e % window {
        assert(e - i == window * (p - q)) by (nonlinear_arith)
            requires
                i == window * q + i % window,
                e == window * p + e % window,
                i % window == e % window,
        ;
        assert(false) by (nonlinear_arith)
            requires
                e - i == window * (p - q),
                0 < e - i < window,
        ;
    }
}

/// The slots of a lane after its part of an arriving row.
spec fn lane_after(slots: Seq<Option<Chip>>, cell: Cell, slot: int) -> Seq<Option<Chip>> {
    let aged = if cell.decays() {
        slots.map_values(|c: Option<Chip>| decayed(c, cell.survival))
    } else {
        slots
    };
    aged.update(
        slot,
        if cell.deposits() {
            Some(Chip { price: cell.price, weight: cell.turnover, factors: Seq::empty() })
        } else {
            None
        },
    )
}

proof fn an_arrival_keeps_the_lane(
    slots: Seq<Option<Chip>>,
    column: spec_fn(int) -> Cell,
    start: int,
    end: int,
    window: int,
)
    requires
        0 <= start <= end < start + window,
        lane_holds(slots, column, start, end, window),
    ensures
        lane_holds(
            lane_after(slots, column(end), slot_of(end, window)),
            column,
            start,
            end + 1,
            window,
        ),
{
    let cell = column(end);
    let e = slot_of(end, window);
    let after = lane_after(slots, cell, e);
    assert(0 <= e < window) by (nonlinear_arith)
        requires
            window > 0,
            e == end % window,
    ;
    assert forall|i: int| start <= i < end + 1 implies after[#[trigger] slot_of(i, window)]
        == remains(column, i, end + 1) by {
        if i == end {
            assert(factors(column, end + 1, end + 1) =~= Seq::<Double>::empty());
        } else {
            slots_differ(i, end, window);
            assert(slots[slot_of(i, window)] == remains(column, i, end));
        }
    }
    assert forall|s: int|
        0 <= s < window && (forall|i: int|
            start <= i < end + 1 ==> #[trigger] slot_of(i, window) != s) implies #[trigger] after[s] is None by {
        assert(slot_of(end, window) != s);
        assert(forall|i: int| start <= i < end ==> #[trigger] slot_of(i, window) != s);
        assert(slots[s] is None);
    }
}

proof fn a_departure_keeps_the_lane(
    slots: Seq<Option<Chip>>,
    column: spec_fn(int) -> Cell,
    start: int,
    end: int,
    window: int,
)
    requires
        0 <= start < end <= start + window,
        lane_holds(slots, column, start, end, window),
    ensures
        lane_holds(slots.update(slot_of(start, window), None), column, start + 1, end, window),
{
    let gone = slot_of(start, window);
    let after = slots.update(gone, None);
    assert(0 <= gone < window) by (nonlinear_arith)
        requires
            window > 0,
            gone == start % window,
    ;
    assert forall|i: int| start + 1 <= i < end implies after[#[trigger] slot_of(i, window)]
        == remains(column, i, end) by {
        slots_differ(start, i, window);
    }
    assert forall|s: int|
        0 <= s < window && (forall|i: int|
            start + 1 <= i < end ==> #[trigger] slot_of(i, window) != s) implies #[trigger] after[s] is None by {
        if s != gone {
            assert(forall|i: int| start <= i < end ==> #[trigger] slot_of(i, window) != s);
            assert(slots[s] is None);
        }
    }
}

proof fn replayed_in_two(ring: Ring, a: Seq<Step>, b: Seq<Step>)
    ensures
        replayed(ring, a + b) == replayed(replayed(ring, a), b),
    decreases b.len(),
{
    if b.len() == 0 {
        assert(a + b =~= a);
    } else {
        assert((a + b).drop_last() =~= a + b.drop_last());
        replayed_in_two(ring, a, b.drop_last());
    }
}

proof fn replayed_cell(ring: Ring, cell: Cell, lane: int, slot: int)
    requires
        0 <= lane < ring.len(),
        lane <= usize::MAX,
        0 <= slot <= usize::MAX,
    ensures
        replayed(ring, cell_steps(cell, lane, slot)) == ring.update(
            lane,
            lane_after(ring[lane], cell, slot),
        ),
{
    let steps = cell_steps(cell, lane, slot);
    reveal_with_fuel(replayed, 3);
    if cell.decays() {
        assert(steps.drop_last() =~= seq![
            Step::Decay { lane: lane as usize, by: cell.survival },
        ]);
        assert(steps.drop_last().drop_last() =~= seq![]);
    } else {
        assert(steps.drop_last() =~= seq![]);
    }
    assert(replayed(ring, steps) =~= ring.update(lane, lane_after(ring[lane], cell, slot)));
}

proof fn replayed_row(ring: Ring, row: Seq<Cell>, n: int, slot: int)
    requires
        0 <= n <= ring.len(),
        ring.len() <= usize::MAX,
        0 <= slot <= usize::MAX,
    ensures
        ({
            let after = replayed(ring, row_steps(row, n, slot));
            &&& after.len() == ring.len()
            &&& forall|j: int|
                0 <= j < n ==> #[trigger] after[j] == lane_after(ring[j], row[j], slot)
            &&& forall|j: int| n <= j < ring.len() ==> #[trigger] after[j] == ring[j]
        }),
    decreases n,
{
    if n > 0 {
        replayed_row(ring, row, n - 1, slot);
        let before = replayed(ring, row_steps(row, n - 1, slot));
        replayed_in_two(ring, row_steps(row, n - 1, slot), cell_steps(row[n - 1], n - 1, slot));
        replayed_cell(before, row[n - 1], n - 1, slot);
    }
}

proof fn arrivals_keep_the_ring(
    ring: Ring,
    rows: Seq<Seq<Cell>>,
    stream: spec_fn(int, int) -> Cell,
    start: int,
    from: int,
    to: int,
    lanes: int,
    window: int,
)
    requires
        0 <= start <= from <= to <= start + window,
        0 < window <= usize::MAX,
        0 <= lanes <= usize::MAX,
        ring_holds(ring, stream, start, from, lanes, window),
        forall|i: int, j: int|
            from <= i < to && 0 <= j < lanes ==> #[trigger] rows[i - from][j] == stream(i, j),
    ensures
        ring_holds(
            replayed(ring, arrivals(rows, from, to, lanes, window)),
            stream,
            start,
            to,
            lanes,
            window,
        ),
    decreases to - from,
{
    if from < to {
        let e = to - 1;
        assert forall|i: int, j: int| from <= i < e && 0 <= j < lanes implies #[trigger] rows[i
            - from][j] == stream(i, j) by {}
        arrivals_keep_the_ring(ring, rows, stream, start, from, e, lanes, window);
        let before = replayed(ring, arrivals(rows, from, e, lanes, window));
        let row = rows[e - from];
        let slot = e % window;
        assert(0 <= slot < window) by (nonlinear_arith)
            requires
                window > 0,
                slot == e % window,
        ;
        replayed_in_two(
            ring,
            arrivals(rows, from, e, lanes, window),
            row_steps(row, lanes, slot),
        );
        replayed_row(before, row, lanes, slot);
        let after = replayed(before, row_steps(row, lanes, slot));
        assert forall|j: int| 0 <= j < lanes implies lane_holds(
            #[trigger] after[j],
            |i: int| stream(i, j),
            start,
            to,
            window,
        ) by {
            assert(rows[e - from][j] == stream(e, j));
            assert(lane_holds(before[j], |i: int| stream(i, j), start, e, window));
            an_arrival_keeps_the_lane(before[j], |i: int| stream(i, j), start, e, window);
        }
    } else {
        assert(arrivals(rows, from, to, lanes, window) =~= seq![]);
    }
}

proof fn replayed_evictions(ring: Ring, n: int, slot: int)
    requires
        0 <= n <= ring.len(),
        ring.len() <= usize::MAX,
        0 <= slot <= usize::MAX,
    ensures
        ({
            let steps = Seq::new(
                n as nat,
                |j: int| Step::Evict { lane: j as usize, slot: slot as usize },
            );
            let after = replayed(ring, steps);
            &&& after.len() == ring.len()
            &&& forall|j: int| 0 <= j < n ==> #[trigger] after[j] == ring[j].update(slot, None)
            &&& forall|j: int| n <= j < ring.len() ==> #[trigger] after[j] == ring[j]
        }),
    decreases n,
{
    if n > 0 {
        replayed_evictions(ring, n - 1, slot);
        let steps = Seq::new(
            n as nat,
            |j: int| Step::Evict { lane: j as usize, slot: slot as usize },
        );
        assert(steps.drop_last() =~= Seq::new(
            (n - 1) as nat,
            |j: int| Step::Evict { lane: j as usize, slot: slot as usize },
        ));
    }
}

proof fn departures_keep_the_ring(
    ring: Ring,
    stream: spec_fn(int, int) -> Cell,
    from: int,
    to: int,
    end: int,
    lanes: int,
    window: int,
)
    requires
        0 <= from <= to <= end <= from + window,
        0 < window <= usize::MAX,
        0 <= lanes <= usize::MAX,
        ring_holds(ring, stream, from, end, lanes, window),
    ensures
        ring_holds(
            replayed(ring, departures(from, to, lanes, window)),
            stream,
            to,
            end,
            lanes,
            window,
        ),
    decreases to - from,
{
    if from < to {
        let i = to - 1;
        departures_keep_the_ring(ring, stream, from, i, end, lanes, window);
        let before = replayed(ring, departures(from, i, lanes, window));
        let slot = i % window;
        assert(0 <= slot < window) by (nonlinear_arith)
            requires
                window > 0,
                slot == i % window,
        ;
        let row = Seq::new(
            lanes as nat,
            |j: int| Step::Evict { lane: j as usize, slot: (i % window) as usize },
        );
        assert(row =~= Seq::new(
            lanes as nat,
            |j: int| Step::Evict { lane: j as usize, slot: slot as usize },
        ));
        replayed_in_two(ring, departures(from, i, lanes, window), row);
        replayed_evictions(before, lanes, slot);
        let after = replayed(before, row);
        assert forall|j: int| 0 <= j < lanes implies lane_holds(
            #[trigger] after[j],
            |k: int| stream(k, j),
            to,
            end,
            window,
        ) by {
            assert(lane_holds(before[j], |k: int| stream(k, j), i, end, window));
            a_departure_keeps_the_lane(before[j], |k: int| stream(k, j), i, end, window);
        }
    } else {
        assert(departures(from, to, lanes, window) =~= seq![]);
    }
}

/// The ring of a state that has taken no rows in: every slot is dead.
pub open spec fn dead_ring(lanes: int, window: int) -> Ring {
    Seq::new(lanes as nat, |j: int| Seq::new(window as nat, |s: int| None::<Chip>))
}

/// The start of the induction: dead slots are what a window without rows
/// leaves.
pub proof fn a_dead_ring_holds_no_rows(
    stream: spec_fn(int, int) -> Cell,
    at: int,
    lanes: int,
    window: int,
)
    requires
        lanes >= 0,
        window >= 0,
    ensures
        ring_holds(dead_ring(lanes, window), stream, at, at, lanes, window),
{
}

/// Following the steps of a moving window gives, slot by slot, what
/// reconstructing the whole window would: the slot of each row of the window
/// holds that row's chip, decayed once by every later row in time order, and
/// every other slot is dead.
pub proof fn the_ring_is_the_window(
    ring: Ring,
    rows: Seq<Seq<Cell>>,
    stream: spec_fn(int, int) -> Cell,
    first: int,
    last: int,
    start: int,
    end: int,
    lanes: int,
    window: int,
)
    requires
        0 < window <= usize::MAX,
        0 <= lanes <= usize::MAX,
        0 <= first <= last <= first + window,
        first <= start <= end <= start + window,
        last <= end,
        ring_holds(ring, stream, first, last, lanes, window),
        forall|i: int, j: int|
            most(last, start) <= i < end && 0 <= j < lanes ==> #[trigger] rows[i - most(
                last,
                start,
            )][j] == stream(i, j),
    ensures
        ring_holds(
            replayed(
                ring,
                departures(first, least(start, last), lanes, window) + arrivals(
                    rows,
                    most(last, start),
                    end,
                    lanes,
                    window,
                ),
            ),
            stream,
            start,
            end,
            lanes,
            window,
        ),
{
    let gone = least(start, last);
    let from = most(last, start);
    let out = departures(first, gone, lanes, window);
    let inn = arrivals(rows, from, end, lanes, window);
    replayed_in_two(ring, out, inn);
    departures_keep_the_ring(ring, stream, first, gone, last, lanes, window);
    let between = replayed(ring, out);
    assert(ring_holds(between, stream, start, from, lanes, window)) by {
        if last <= start {
            assert forall|j: int| 0 <= j < lanes implies lane_holds(
                #[trigger] between[j],
                |i: int| stream(i, j),
                start,
                from,
                window,
            ) by {
                assert(lane_holds(between[j], |i: int| stream(i, j), last, last, window));
                assert forall|s: int| 0 <= s < window implies #[trigger] between[j][s] is None by {
                    assert(forall|i: int|
                        last <= i < last ==> #[trigger] slot_of(i, window) != s);
                }
            }
        }
    }
    arrivals_keep_the_ring(between, rows, stream, start, from, end, lanes, window);
}

/// Where a holder's return falls.
#[derive(Clone, Copy, Debug, PartialEq, Eq, Structural)]
pub enum Band {
    /// Above 10%.
    LargeProfit,
    /// Above 2%, up to 10%.
    SmallProfit,
    /// From -2% to 2%.
    Balance,
    /// From -10%, below -2%.
    SmallLoss,
    /// Below -10%.
    LargeLoss,
}

/// The band of a return.
pub open spec fn band(r: Double) -> Band {
    if (Double { bits: LARGE_GAIN }).below(r) {
        Band::LargeProfit
    } else if (Double { bits: SMALL_GAIN }).below(r) {
        Band::SmallProfit
    } else if (Double { bits: SMALL_LOSS }).at_most(r) {
        Band::Balance
    } else if (Double { bits: LARGE_LOSS }).at_most(r) {
        Band::SmallLoss
    } else {
        Band::LargeLoss
    }
}

/// The band of a return.
pub fn band_of(r: Double) -> (b: Band)
    ensures
        b == band(r),
{
    if (Double { bits: LARGE_GAIN }).is_below(r) {
        Band::LargeProfit
    } else if (Double { bits: SMALL_GAIN }).is_below(r) {
        Band::SmallProfit
    } else if (Double { bits: SMALL_LOSS }).is_at_most(r) {
        Band::Balance
    } else if (Double { bits: LARGE_LOSS }).is_at_most(r) {
        Band::SmallLoss
    } else {
        Band::LargeLoss
    }
}

/// The bands of two returns come in the order of the returns: a greater
/// return never falls in a band of greater loss.
pub proof fn bands_are_ordered(a: Double, b: Double)
    requires
        a.at_most(b),
    ensures
        band(a) is LargeProfit ==> band(b) is LargeProfit,
        band(a) is SmallProfit ==> band(b) is SmallProfit || band(b) is LargeProfit,
        band(b) is LargeLoss ==> band(a) is LargeLoss,
        band(b) is SmallLoss ==> band(a) is SmallLoss || band(a) is LargeLoss,
{
}

/// The bin of a return that lies `q` whole bins above -0.5; returns beyond
/// the histogram fall into its end bins.
pub fn bin_of(q: i64) -> (b: usize)
    ensures
        q < 0 ==> b == 0,
        0 <= q < BINS ==> b == q,
        q >= BINS ==> b == BINS - 1,
{
    if q < 0 {
        0
    } else if q >= BINS as i64 {
        BINS - 1
    } else {
        q as usize
    }
}

/// The bin with the greatest weight among the first `n`, the first of them
/// where several have it. A missing weight is never greater than another.
pub open spec fn modal(bins: Seq<Double>, n: int) -> int
    decreases n,
{
    if n <= 1 {
        0
    } else {
        let m = modal(bins, n - 1);
        if bins[m].below(bins[n - 1]) {
            n - 1
        } else {
            m
        }
    }
}

/// The bin with the greatest weight, the first of them where several have it.
pub fn modal_bin(bins: &Vec<Double>) -> (r: usize)
    requires
        bins@.len() > 0,
    ensures
        r == modal(bins@, bins@.len() as int),
        r < bins@.len(),
{
    let mut m: usize = 0;
    let mut b: usize = 1;
    while b < bins.len()
        invariant
            1 <= b <= bins@.len(),
            m < b,
            m == modal(bins@, b as int),
        decreases bins@.len() - b,
    {
        if bins[m].is_below(bins[b]) {
            m = b;
        }
        b += 1;
    }
    m
}

/// Of weights that are all there, the modal bin has the greatest, and every
/// bin before it has a smaller one.
pub proof fn the_modal_bin_is_the_first_greatest(bins: Seq<Double>, n: int)
    requires
        1 <= n <= bins.len(),
        forall|b: int| 0 <= b < n ==> !(#[trigger] bins[b]).nan(),
    ensures
        0 <= modal(bins, n) < n,
        forall|b: int| 0 <= b < n ==> (#[trigger] bins[b]).at_most(bins[modal(bins, n)]),
        forall|b: int| 0 <= b < modal(bins, n) ==> (#[trigger] bins[b]).below(
            bins[modal(bins, n)],
        ),
    decreases n,
{
    if n > 1 {
        the_modal_bin_is_the_first_greatest(bins, n - 1);
    }
}

/// Whether a lane has a distribution to read: the window is full, today's
/// close is usable, and the total weight is not zero or less.
pub open spec fn has_reading(rows: int, window: int, price: Double, total: Double) -> bool {
    rows >= window && price.usable() && !total.at_most(Double { bits: 0 })
}

/// Whether a lane has a distribution to read; without one all its statistics
/// are missing.
pub fn is_readable(rows: usize, window: usize, price: Double, total: Double) -> (r: bool)
    ensures
        r == has_reading(rows as int, window as int, price, total),
{
    rows >= window && price.is_usable() && !total.is_at_most(Double { bits: 0 })
}

/// Clamping a turnover twice changes nothing: a stream gives the same rows, and
/// so takes the same steps, as the stream with its turnovers clamped before.
pub proof fn clamping_twice_is_clamping_once(
    stream: Seq<Seq<(Double, Double)>>,
    survival: spec_fn(Double) -> Double,
    from: int,
    to: int,
    lanes: int,
    window: int,
)
    ensures
        rows_of(with_clamped(stream), survival) == rows_of(stream, survival),
        arrivals(rows_of(with_clamped(stream), survival), from, to, lanes, window) == arrivals(
            rows_of(stream, survival),
            from,
            to,
            lanes,
            window,
        ),
{
    let (a, b) = (rows_of(with_clamped(stream), survival), rows_of(stream, survival));
    assert forall|k: int| 0 <= k < stream.len() implies #[trigger] a[k] == b[k] by {
        assert forall|j: int| 0 <= j < stream[k].len() implies #[trigger] a[k][j] == b[k][j] by {
            let t = stream[k][j].1;
            assert(clamped(clamped(t)) == clamped(t));
            assert(with_clamped(stream)[k][j] == (stream[k][j].0, clamped(t)));
        }
        assert(a[k] =~= b[k]);
    }
    assert(a =~= b);
}

/// A turnover that is not finite is no trade: it neither decays older chips
/// nor deposits one, as long as nothing less zero is one.
pub proof fn an_invalid_turnover_is_no_trade(
    price: Double,
    turnover: Double,
    survival: spec_fn(Double) -> Double,
    lane: int,
    slot: int,
)
    requires
        !turnover.finite(),
        survival(Double { bits: 0 }) == (Double { bits: ONE }),
    ensures
        cell_steps(cell_of(price, turnover, survival), lane, slot) == seq![
            Step::Clear { lane: lane as usize, slot: slot as usize },
        ],
{
    assert(cell_steps(cell_of(price, turnover, survival), lane, slot) =~= seq![
        Step::Clear { lane: lane as usize, slot: slot as usize },
    ]);
}

/// A turnover is held between nothing and all: one in between stays, a finite
/// one outside is brought to the nearer end, and any other is nothing.
pub proof fn a_turnover_is_held_in(t: Double)
    ensures
        ({
            let c = clamped(t);
            let (nothing, all) = (Double { bits: 0 }, Double { bits: 0x3ff0_0000_0000_0000 });
            &&& nothing.at_most(c) && c.at_most(all)
            &&& nothing.at_most(t) && t.at_most(all) ==> c == t
            &&& t.finite() && all.below(t) ==> c == all
            &&& t.below(nothing) || !t.finite() ==> c == nothing
        }),
{
}

/// What is left of a row's chip: nothing unless the stock traded that day at
/// a finite positive price, and otherwise the day's turnover at that price,
/// once multiplied by the survival factor of every later row that has one
/// below one.
pub proof fn a_chip_is_left_of_a_trade(column: spec_fn(int) -> Cell, i: int, end: int)
    ensures
        ({
            let cell = column(i);
            let left = remains(column, i, end);
            &&& left is Some <==> (!cell.turnover.nan() && cell.turnover.rank() > 0
                && cell.price.finite() && cell.price.rank() > 0)
            &&& left is Some ==> left->0.price == cell.price && left->0.weight == cell.turnover
            &&& left is Some && end <= i + 1 ==> left->0.factors == Seq::<Double>::empty()
            &&& left is Some && end > i + 1 ==> left->0.factors == if column(
                end - 1,
            ).survival.below(Double { bits: 0x3ff0_0000_0000_0000 }) {
                remains(column, i, end - 1)->0.factors.push(column(end - 1).survival)
            } else {
                remains(column, i, end - 1)->0.factors
            }
        }),
{
}

/// The bands part returns at the numbers closest to ten and to two in a
/// hundred, on either side: a return at a bound belongs to the milder band.
pub proof fn the_bands_have_their_bounds(r: Double)
    requires
        !r.nan(),
    ensures
        closest(Double { bits: LARGE_GAIN }, 1, 10, 56),
        closest(Double { bits: SMALL_GAIN }, 1, 50, 58),
        SMALL_LOSS == SMALL_GAIN + SIGN_BIT,
        LARGE_LOSS == LARGE_GAIN + SIGN_BIT,
        ({
            let (large, small) = (
                (Double { bits: LARGE_GAIN }).rank(),
                (Double { bits: SMALL_GAIN }).rank(),
            );
            &&& band(r) is LargeProfit <==> r.rank() > large
            &&& band(r) is SmallProfit <==> small < r.rank() <= large
            &&& band(r) is Balance <==> -small <= r.rank() <= small
            &&& band(r) is SmallLoss <==> -large <= r.rank() < -small
            &&& band(r) is LargeLoss <==> r.rank() < -large
        }),
{
    vstd::arithmetic::power2::lemma2_to64_rest();
}

/// A distribution is read exactly when its window is full, the close is
/// finite and positive, and the weights do not add up to zero or less.
pub proof fn a_full_window_is_read(rows: int, window: int, price: Double, total: Double)
    ensures
        has_reading(rows, window, price, total) <==> rows >= window && price.finite()
            && price.rank() > 0 && (total.nan() || total.rank() > 0),
{
}

/// A row that traded decays what is there by its survival factor before it
/// deposits its own chip; the factor counts only below one.
pub proof fn a_trade_decays_before_it_deposits(cell: Cell, lane: int, slot: int)
    requires
        !cell.turnover.nan(),
        cell.turnover.rank() > 0,
        cell.price.finite(),
        cell.price.rank() > 0,
    ensures
        ({
            let steps = cell_steps(cell, lane, slot);
            let deposit = Step::Deposit {
                lane: lane as usize,
                slot: slot as usize,
                price: cell.price,
                weight: cell.turnover,
            };
            &&& steps.last() == deposit
            &&& cell.survival.below(Double { bits: 0x3ff0_0000_0000_0000 }) ==> steps == seq![
                Step::Decay { lane: lane as usize, by: cell.survival },
                deposit,
            ]
            &&& !cell.survival.below(Double { bits: 0x3ff0_0000_0000_0000 }) ==> steps == seq![
                deposit,
            ]
        }),
{
    let steps = cell_steps(cell, lane, slot);
    let deposit = Step::Deposit {
        lane: lane as usize,
        slot: slot as usize,
        price: cell.price,
        weight: cell.turnover,
    };
    if cell.decays() {
        assert(steps =~= seq![Step::Decay { lane: lane as usize, by: cell.survival }, deposit]);
    } else {
        assert(steps =~= seq![deposit]);
    }
}

} // verus!
