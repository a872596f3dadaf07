//! Readouts of simulated books: which samples count, net asset value tables
//! and weight tables.
//!
//! What a sample is, where a curve starts and which rows are written is
//! decided here. Quotients, logarithms and the spelling of floating-point
//! numbers come from outside, as values and texts.
use vstd::prelude::*;

use crate::double::Double;
use crate::graph::texts;
use crate::sort::{orders, precedes, sorted_places};
use crate::time::{Instant, date_of, format_date};
use crate::meaning::closest;

verus! {

/// The samples below which a curve has no ratios.
pub const LEAST_SAMPLES: usize = 10;

/// The bit pattern of `1e-9`: weights below it are floating-point dust.
pub const DUST: u64 = 0x3e11_2e0b_e826_d695;

/// The finite positive values among the first `n`, in order.
pub open spec fn usable_samples(values: Seq<Double>, n: int) -> Seq<Double>
    decreases n,
{
    if n <= 0 {
        seq![]
    } else if values[n - 1].usable() {
        usable_samples(values, n - 1).push(values[n - 1])
    } else {
        usable_samples(values, n - 1)
    }
}

/// The finite values among the first `n`, in order.
pub open spec fn finite_samples(values: Seq<Double>, n: int) -> Seq<Double>
    decreases n,
{
    if n <= 0 {
        seq![]
    } else if values[n - 1].finite() {
        finite_samples(values, n - 1).push(values[n - 1])
    } else {
        finite_samples(values, n - 1)
    }
}

/// The samples of a net asset value curve: its finite positive values.
pub fn nav_samples(values: &Vec<Double>) -> (r: Vec<Double>)
    ensures
        r@ == usable_samples(values@, values@.len() as int),
{
    let mut out: Vec<Double> = Vec::new();
    for i in 0..values.len()
        invariant
            out@ == usable_samples(values@, i as int),
    {
        if values[i].is_usable() {
            out.push(values[i]);
        }
    }
    out
}

/// The greatest of the first `n` values and of `floor`.
pub open spec fn peak(floor: Double, values: Seq<Double>, n: int) -> Double
    decreases n,
{
    if n <= 0 {
        floor
    } else {
        peak(floor, values, n - 1).greater(values[n - 1])
    }
}

/// The bit pattern of the least finite number.
pub const LEAST_FINITE: u64 = 0xffef_ffff_ffff_ffff;

/// The running peaks of a curve: at each sample, the greatest so far. The
/// drawdown of a sample is its quotient with its peak, less one.
pub fn running_peaks(samples: &Vec<Double>) -> (r: Vec<Double>)
    ensures
        r@ == Seq::new(
            samples@.len(),
            |i: int| peak(Double { bits: LEAST_FINITE }, samples@, i + 1),
        ),
{
    let mut out: Vec<Double> = Vec::new();
    let mut top = Double { bits: LEAST_FINITE };
    for i in 0..samples.len()
        invariant
            top == peak(Double { bits: LEAST_FINITE }, samples@, i as int),
            out@.len() == i,
            forall|k: int|
                0 <= k < i ==> #[trigger] out@[k] == peak(
                    Double { bits: LEAST_FINITE },
                    samples@,
                    k + 1,
                ),
    {
        top = top.greater_of(samples[i]);
        out.push(top);
    }
    assert(out@ =~= Seq::new(
        samples@.len(),
        |i: int| peak(Double { bits: LEAST_FINITE }, samples@, i + 1),
    ));
    out
}

/// A running peak of usable samples is one of them, and none so far is
/// greater.
pub proof fn a_peak_is_the_greatest_so_far(samples: Seq<Double>, n: int)
    requires
        1 <= n <= samples.len(),
        forall|i: int| 0 <= i < n ==> (#[trigger] samples[i]).usable(),
    ensures
        peak(Double { bits: LEAST_FINITE }, samples, n).usable(),
        forall|i: int|
            0 <= i < n ==> (#[trigger] samples[i]).at_most(
                peak(Double { bits: LEAST_FINITE }, samples, n),
            ),
        exists|i: int|
            0 <= i < n && #[trigger] samples[i] == peak(
                Double { bits: LEAST_FINITE },
                samples,
                n,
            ),
    decreases n,
{
    let floor = Double { bits: LEAST_FINITE };
    assert(samples[n - 1].usable());
    if n > 1 {
        a_peak_is_the_greatest_so_far(samples, n - 1);
    } else {
        assert(peak(floor, samples, 0) == floor);
        assert(floor.below(samples[0]));
    }
    if peak(floor, samples, n) == samples[n - 1] {
        assert(samples[n - 1] == peak(floor, samples, n));
    } else {
        let i = choose|i: int|
            0 <= i < n - 1 && #[trigger] samples[i] == peak(floor, samples, n - 1);
        assert(samples[i] == peak(floor, samples, n));
    }
}

/// The least of zero and the values, which is the deepest of drawdowns; a
/// missing value counts for nothing.
pub open spec fn deepest(drawdowns: Seq<Double>, n: int) -> Double
    decreases n,
{
    if n <= 0 {
        Double { bits: 0 }
    } else {
        let before = deepest(drawdowns, n - 1);
        if drawdowns[n - 1].below(before) {
            drawdowns[n - 1]
        } else {
            before
        }
    }
}

/// The deepest of drawdowns.
pub fn max_drawdown(drawdowns: &Vec<Double>) -> (r: Double)
    ensures
        r == deepest(drawdowns@, drawdowns@.len() as int),
{
    let mut least = Double { bits: 0 };
    for i in 0..drawdowns.len()
        invariant
            least == deepest(drawdowns@, i as int),
    {
        if drawdowns[i].is_below(least) {
            least = drawdowns[i];
        }
    }
    least
}

/// What is computed from the samples of a curve: the compound annual growth
/// rate, the deviation of its log returns, their annualized deviation, and
/// the quotient of mean and deviation on an annual scale.
#[derive(Clone, Copy, Debug, PartialEq, Eq, Structural)]
pub struct Ratios {
    pub cagr: Double,
    pub deviation: Double,
    pub vol: Double,
    pub sharpe: Double,
}

/// Summary statistics of a daily net asset value curve.
#[derive(Clone, Copy, Debug, PartialEq, Eq, Structural)]
pub struct ReportStats {
    pub final_value: Double,
    pub cagr: Double,
    pub sharpe: Double,
    pub vol: Double,
    pub max_drawdown: Double,
}

/// The bit pattern of a missing value.
pub const MISSING: u64 = 0x7ff8_0000_0000_0000;

/// A missing value.
pub open spec fn missing() -> Double {
    Double { bits: MISSING }
}

/// The last sample, missing without samples.
pub open spec fn last_sample(samples: Seq<Double>) -> Double {
    if samples.len() == 0 {
        missing()
    } else {
        samples.last()
    }
}

/// The statistics of samples: the last one and, from [`LEAST_SAMPLES`] on, the
/// ratios and the deepest of the drawdowns. There is no Sharpe ratio without
/// deviation.
pub open spec fn stats_of(
    samples: Seq<Double>,
    ratios: Ratios,
    drawdowns: Seq<Double>,
) -> ReportStats {
    if samples.len() < LEAST_SAMPLES {
        ReportStats {
            final_value: last_sample(samples),
            cagr: missing(),
            sharpe: missing(),
            vol: missing(),
            max_drawdown: missing(),
        }
    } else {
        ReportStats {
            final_value: last_sample(samples),
            cagr: ratios.cagr,
            sharpe: if (Double { bits: 0 }).below(ratios.deviation) {
                ratios.sharpe
            } else {
                missing()
            },
            vol: ratios.vol,
            max_drawdown: deepest(drawdowns, drawdowns.len() as int),
        }
    }
}

/// Statistics from a daily net asset value series, given the ratios and the
/// drawdowns of its samples; the ratios are missing for curves with fewer than
/// [`LEAST_SAMPLES`] finite positive samples.
pub fn nav_stats(values: &Vec<Double>, ratios: Ratios, drawdowns: &Vec<Double>) -> (r: ReportStats)
    ensures
        r == stats_of(usable_samples(values@, values@.len() as int), ratios, drawdowns@),
{
    let s = nav_samples(values);
    let none = Double { bits: MISSING };
    let final_value = if s.len() == 0 {
        none
    } else {
        s[s.len() - 1]
    };
    if s.len() < LEAST_SAMPLES {
        return ReportStats {
            final_value,
            cagr: none,
            sharpe: none,
            vol: none,
            max_drawdown: none,
        };
    }
    let sharpe = if (Double { bits: 0 }).is_below(ratios.deviation) {
        ratios.sharpe
    } else {
        none
    };
    ReportStats {
        final_value,
        cagr: ratios.cagr,
        sharpe,
        vol: ratios.vol,
        max_drawdown: max_drawdown(drawdowns),
    }
}

/// A curve with samples put in, one after the other, each at a place of what
/// is there by then.
pub open spec fn with_inserted(values: Seq<Double>, given: Seq<(int, Double)>) -> Seq<Double>
    decreases given.len(),
{
    if given.len() == 0 {
        values
    } else {
        with_inserted(values, given.drop_last()).insert(given.last().0, given.last().1)
    }
}

/// Samples that are not finite and positive count for nothing: put into a
/// curve anywhere, and in any number, they leave its samples and its
/// statistics as they are.
pub proof fn unusable_samples_count_for_nothing(
    values: Seq<Double>,
    given: Seq<(int, Double)>,
    ratios: Ratios,
    drawdowns: Seq<Double>,
)
    requires
        forall|k: int|
            0 <= k < given.len() ==> 0 <= (#[trigger] given[k]).0 <= values.len() + k
                && !given[k].1.usable(),
    ensures
        ({
            let more = with_inserted(values, given);
            let (s, t) = (
                usable_samples(values, values.len() as int),
                usable_samples(more, more.len() as int),
            );
            &&& more.len() == values.len() + given.len()
            &&& s == t
            &&& stats_of(s, ratios, drawdowns) == stats_of(t, ratios, drawdowns)
        }),
    decreases given.len(),
{
    if given.len() > 0 {
        let fewer = given.drop_last();
        assert forall|k: int| 0 <= k < fewer.len() implies 0 <= (#[trigger] fewer[k]).0
            <= values.len() + k && !fewer[k].1.usable() by {
            assert(fewer[k] == given[k]);
        }
        unusable_samples_count_for_nothing(values, fewer, ratios, drawdowns);
        let before = with_inserted(values, fewer);
        let (at, x) = given.last();
        assert(given[given.len() - 1] == given.last());
        assert(with_inserted(values, given) == before.insert(at, x));
        an_unusable_sample_counts_for_nothing(before, at, x, before.len() as int);
    }
}

proof fn an_unusable_sample_counts_for_nothing(values: Seq<Double>, at: int, x: Double, n: int)
    requires
        0 <= at <= values.len(),
        0 <= n <= values.len(),
        !x.usable(),
    ensures
        n <= at ==> usable_samples(values.insert(at, x), n) == usable_samples(values, n),
        n >= at ==> usable_samples(values.insert(at, x), n + 1) == usable_samples(values, n),
    decreases n,
{
    let more = values.insert(at, x);
    if n > 0 {
        an_unusable_sample_counts_for_nothing(values, at, x, n - 1);
        if n <= at {
            assert(more[n - 1] == values[n - 1]);
        }
        if n > at {
            assert(more[n] == values[n - 1]);
        }
    }
    if n == at {
        assert(more[n] == x);
        assert(usable_samples(more, n + 1) == usable_samples(more, n));
    }
}

/// Whether a curve starts at place `at`: the first instant from `start` on,
/// or the end when there is none. An open start is the first instant.
pub open spec fn starts_at(instants: Seq<Instant>, start: Option<Instant>, at: int) -> bool {
    match start {
        None => at == 0,
        Some(s) => {
            &&& 0 <= at <= instants.len()
            &&& forall|i: int| 0 <= i < at ==> (#[trigger] instants[i]).nanos < s.nanos
            &&& at < instants.len() ==> instants[at].nanos >= s.nanos
        },
    }
}

/// The place where a curve starts.
pub open spec fn kept_from(instants: Seq<Instant>, start: Option<Instant>) -> int {
    choose|at: int| starts_at(instants, start, at)
}

/// Where a curve starts when the warm-up before `start` is trimmed.
pub fn trim(instants: &Vec<Instant>, start: Option<Instant>) -> (r: usize)
    ensures
        starts_at(instants@, start, r as int),
        r == kept_from(instants@, start),
        r <= instants@.len(),
{
    let mut at: usize = 0;
    if let Some(s) = start {
        while at < instants.len() && instants[at].nanos < s.nanos
            invariant
                at <= instants@.len(),
                forall|i: int| 0 <= i < at ==> (#[trigger] instants@[i]).nanos < s.nanos,
            decreases instants@.len() - at,
        {
            at += 1;
        }
    }
    proof {
        assert(starts_at(instants@, start, at as int));
        a_curve_starts_once(instants@, start, at as int, kept_from(instants@, start));
    }
    at
}

/// A curve starts at one place only.
pub proof fn a_curve_starts_once(instants: Seq<Instant>, start: Option<Instant>, a: int, b: int)
    requires
        starts_at(instants, start, a),
        starts_at(instants, start, b),
    ensures
        a == b,
{
    if a < b {
        assert(start is Some ==> instants[a].nanos < start->0.nanos);
    } else if b < a {
        assert(start is Some ==> instants[b].nanos < start->0.nanos);
    }
}

/// The message about curves of different lengths.
pub const MISALIGNED: &'static str = "misaligned NAV curves";

/// The labelled net asset value columns that a strategy writes. All curves
/// are recorded on the same daily pulse, so they share one date axis.
#[derive(Debug)]
pub struct ReportTable {
    instants: Vec<Instant>,
    labels: Vec<String>,
    values: Vec<Vec<Double>>,
}

/// A table as labels, instants and columns of values.
pub ghost struct TableView {
    pub instants: Seq<Instant>,
    pub labels: Seq<Seq<char>>,
    pub values: Seq<Seq<Double>>,
}

/// The columns of values.
pub open spec fn columns(v: Seq<Vec<Double>>) -> Seq<Seq<Double>> {
    v.map_values(|c: Vec<Double>| c@)
}

impl View for ReportTable {
    type V = TableView;

    closed spec fn view(&self) -> TableView {
        TableView {
            instants: self.instants@,
            labels: texts(self.labels@),
            values: columns(self.values@),
        }
    }
}

impl TableView {
    /// Whether every column has a label and a value per instant.
    pub open spec fn aligned(self) -> bool {
        &&& self.labels.len() == self.values.len()
        &&& forall|j: int|
            0 <= j < self.values.len() ==> (#[trigger] self.values[j]).len() == self.instants.len()
    }

    /// The table with a column added; the first column sets the axis.
    pub open spec fn with(
        self,
        label: Seq<char>,
        instants: Seq<Instant>,
        values: Seq<Double>,
    ) -> TableView {
        TableView {
            instants: if self.labels.len() == 0 {
                instants
            } else {
                self.instants
            },
            labels: self.labels.push(label),
            values: self.values.push(values),
        }
    }
}

/// The elements of `v` from `at` on.
pub(crate) fn tail_of<T: Copy>(v: &Vec<T>, at: usize) -> (r: Vec<T>)
    requires
        at <= v@.len(),
    ensures
        r@ == v@.skip(at as int),
{
    let mut out: Vec<T> = Vec::new();
    let mut i: usize = at;
    while i < v.len()
        invariant
            at <= i <= v@.len(),
            out@ == v@.subrange(at as int, i as int),
        decreases v@.len() - i,
    {
        out.push(v[i]);
        i += 1;
        assert(out@ =~= v@.subrange(at as int, i as int));
    }
    assert(out@ =~= v@.skip(at as int));
    out
}

impl ReportTable {
    /// A table without columns.
    pub fn new() -> (r: ReportTable)
        ensures
            r@.aligned(),
            r@ == (TableView {
                instants: Seq::empty(),
                labels: Seq::empty(),
                values: Seq::empty(),
            }),
    {
        let r = ReportTable { instants: Vec::new(), labels: Vec::new(), values: Vec::new() };
        assert(r@.labels =~= Seq::empty());
        assert(r@.values =~= Seq::empty());
        r
    }

    /// Trims the warm-up of a recorded curve before `start` and adds it as a
    /// column. A curve of another length than the others is refused, and the
    /// table stays as it is.
    pub fn add(
        &mut self,
        label: &str,
        start: Option<Instant>,
        instants: &Vec<Instant>,
        values: &Vec<Double>,
    ) -> (r: Result<(), String>)
        requires
            old(self)@.aligned(),
            instants@.len() == values@.len(),
        ensures
            final(self)@.aligned(),
            ({
                let at = kept_from(instants@, start);
                let fits = old(self)@.labels.len() == 0 || old(self)@.instants.len()
                    == instants@.len() - at;
                match r {
                    Ok(_) => fits && final(self)@ == old(self)@.with(
                        label@,
                        instants@.skip(at),
                        values@.skip(at),
                    ),
                    Err(message) => !fits && final(self)@ == old(self)@ && message@
                        == MISALIGNED@,
                }
            }),
    {
        let keep = trim(instants, start);
        let kept = tail_of(instants, keep);
        let column = tail_of(values, keep);
        assert(texts(self.labels@).len() == self.labels@.len());
        if self.labels.len() == 0 {
            self.instants = kept;
        } else if self.instants.len() != kept.len() {
            return Err(MISALIGNED.to_string());
        }
        self.labels.push(label.to_string());
        self.values.push(column);
        proof {
            let now = self@;
            assert(now.labels =~= old(self)@.labels.push(label@));
            assert(now.values =~= old(self)@.values.push(column@));
            assert forall|j: int| 0 <= j < now.values.len() implies (
            #[trigger] now.values[j]).len() == now.instants.len() by {
                if j < old(self)@.values.len() {
                    assert(now.values[j] == old(self)@.values[j]);
                }
            }
        }
        Ok(())
    }

    /// The number of instants of the axis.
    pub fn points(&self) -> (r: usize)
        ensures
            r == self@.instants.len(),
    {
        self.instants.len()
    }

    /// The column added as number `j`.
    pub fn column(&self, j: usize) -> (r: &Vec<Double>)
        requires
            j < self@.values.len(),
        ensures
            r@ == self@.values[j as int],
    {
        &self.values[j]
    }

    /// The columns as `date,<label>,...` CSV. `cells[j][i]` is the text of
    /// value `i` of column `j`.
    pub fn write(&self, cells: &Vec<Vec<String>>) -> (r: String)
        requires
            self@.aligned(),
            cells_fit(cells@, self@.labels.len() as int, self@.instants.len() as int),
        ensures
            r@ == table_csv(self@.labels, self@.instants, cells@),
    {
        write_table(&self.labels, &self.instants, cells)
    }
}

/// Whether there is a text per column and instant.
pub open spec fn cells_fit(cells: Seq<Vec<String>>, columns: int, rows: int) -> bool {
    &&& cells.len() == columns
    &&& forall|j: int| 0 <= j < columns ==> (#[trigger] cells[j])@.len() == rows
}

/// `first`, then a comma and each of the first `n` texts.
pub open spec fn joined(first: Seq<char>, more: spec_fn(int) -> Seq<char>, n: int) -> Seq<char>
    decreases n,
{
    if n <= 0 {
        first
    } else {
        joined(first, more, n - 1) + ","@ + more(n - 1)
    }
}

/// The header line of a table.
pub open spec fn header(labels: Seq<Seq<char>>) -> Seq<char> {
    joined("date"@, |j: int| labels[j], labels.len() as int).push('\n')
}

/// Row `i` of a table.
pub open spec fn table_row(instants: Seq<Instant>, cells: Seq<Vec<String>>, i: int) -> Seq<char> {
    joined(date_of(instants[i]), |j: int| cells[j]@[i]@, cells.len() as int).push('\n')
}

/// The first `n` rows of a table.
pub open spec fn table_rows(instants: Seq<Instant>, cells: Seq<Vec<String>>, n: int) -> Seq<char>
    decreases n,
{
    if n <= 0 {
        seq![]
    } else {
        table_rows(instants, cells, n - 1) + table_row(instants, cells, n - 1)
    }
}

/// A table as CSV: the header, then a row per instant.
pub open spec fn table_csv(
    labels: Seq<Seq<char>>,
    instants: Seq<Instant>,
    cells: Seq<Vec<String>>,
) -> Seq<char> {
    header(labels) + table_rows(instants, cells, instants.len() as int)
}

/// Writes a table as CSV.
pub(crate) fn write_table(
    labels: &Vec<String>,
    instants: &Vec<Instant>,
    cells: &Vec<Vec<String>>,
) -> (r: String)
    requires
        cells_fit(cells@, labels@.len() as int, instants@.len() as int),
    ensures
        r@ == table_csv(texts(labels@), instants@, cells@),
{
    let mut csv = "date".to_string();
    let ghost names = |j: int| texts(labels@)[j];
    for j in 0..labels.len()
        invariant
            names == (|j: int| texts(labels@)[j]),
            csv@ == joined("date"@, names, j as int),
    {
        csv.append(",");
        csv.append(labels[j].as_str());
    }
    csv.push('\n');
    let ghost head = csv@;
    assert(head == header(texts(labels@)));
    assert(csv@ =~= head + table_rows(instants@, cells@, 0));
    for i in 0..instants.len()
        invariant
            cells_fit(cells@, labels@.len() as int, instants@.len() as int),
            csv@ == head + table_rows(instants@, cells@, i as int),
    {
        let mut row = format_date(instants[i]);
        let ghost texts_of_row = |j: int| cells@[j]@[i as int]@;
        for j in 0..cells.len()
            invariant
                i < instants@.len(),
                cells_fit(cells@, labels@.len() as int, instants@.len() as int),
                texts_of_row == (|j: int| cells@[j]@[i as int]@),
                row@ == joined(date_of(instants@[i as int]), texts_of_row, j as int),
        {
            assert(cells@[j as int]@.len() == instants@.len());
            row.append(",");
            row.append(cells[j][i].as_str());
        }
        row.push('\n');
        assert(row@ == table_row(instants@, cells@, i as int));
        csv.append(row.as_str());
        assert(csv@ =~= head + table_rows(instants@, cells@, i + 1));
    }
    csv
}

/// A row of a weight table.
#[derive(Debug)]
pub struct WeightRow {
    pub portfolio: String,
    pub date: Instant,
    pub symbol: String,
    pub weight: Double,
}

/// A row of a weight table, with its texts as characters.
pub ghost struct WeightRowView {
    pub portfolio: Seq<char>,
    pub date: Instant,
    pub symbol: Seq<char>,
    pub weight: Double,
}

impl View for WeightRow {
    type V = WeightRowView;

    open spec fn view(&self) -> WeightRowView {
        WeightRowView {
            portfolio: self.portfolio@,
            date: self.date,
            symbol: self.symbol@,
            weight: self.weight,
        }
    }
}

/// The rows of a weight table.
pub open spec fn row_views(rows: Seq<WeightRow>) -> Seq<WeightRowView> {
    rows.map_values(|r: WeightRow| r@)
}

/// The least weight that is written: the given one, and never dust.
pub open spec fn threshold(min_weight: Double) -> Double {
    min_weight.greater(Double { bits: DUST })
}

/// The lanes among the first `n` whose weight is written, from the first up.
pub open spec fn written_lanes(book: Seq<Double>, least: Double, n: int) -> Seq<usize>
    decreases n,
{
    if n <= 0 {
        seq![]
    } else if book[n - 1].usable() && least.at_most(book[n - 1]) {
        written_lanes(book, least, n - 1).push((n - 1) as usize)
    } else {
        written_lanes(book, least, n - 1)
    }
}

/// The row of a book's holding in a lane.
pub open spec fn holding_row(
    label: Seq<char>,
    date: Instant,
    symbols: Seq<Seq<char>>,
    book: Seq<Double>,
    lane: int,
) -> WeightRowView {
    WeightRowView { portfolio: label, date, symbol: symbols[lane], weight: book[lane] }
}

/// The row of a book's cash, if there is enough of it.
pub open spec fn cash_rows(
    label: Seq<char>,
    date: Instant,
    cash: Double,
    least: Double,
) -> Seq<WeightRowView> {
    if least.at_most(cash) {
        seq![WeightRowView { portfolio: label, date, symbol: "CASH"@, weight: cash }]
    } else {
        seq![]
    }
}

/// The rows of a book before they are put in order: the holdings of at least
/// `least`, lane by lane, and the cash.
pub open spec fn book_rows(
    label: Seq<char>,
    date: Instant,
    symbols: Seq<Seq<char>>,
    book: Seq<Double>,
    cash: Double,
    least: Double,
) -> Seq<WeightRowView> {
    written_lanes(book, least, book.len() as int).map_values(
        |lane: usize| holding_row(label, date, symbols, book, lane as int),
    ) + cash_rows(label, date, cash, least)
}

/// Keys that put the greatest weight first.
pub open spec fn by_weight(rows: Seq<WeightRowView>) -> Seq<i64> {
    rows.map_values(|row: WeightRowView| (-row.weight.rank()) as i64)
}

/// Rows in the order of `order`.
pub open spec fn arranged(rows: Seq<WeightRowView>, order: Seq<usize>) -> Seq<WeightRowView> {
    order.map_values(|place: usize| rows[place as int])
}

/// Whether `block` are the rows of a book, holdings and cash together, the
/// greatest weight first. Equal weights come in lane order, the cash after
/// them.
pub open spec fn is_block(
    label: Seq<char>,
    date: Instant,
    symbols: Seq<Seq<char>>,
    book: Seq<Double>,
    cash: Double,
    least: Double,
    block: Seq<WeightRowView>,
) -> bool {
    let rows = book_rows(label, date, symbols, book, cash, least);
    exists|order: Seq<usize>| #[trigger]
        orders(by_weight(rows), 0, rows.len() as int, order) && block == arranged(rows, order)
}

/// Whether `blocks` are the rows of the first `n` books, date by date.
pub open spec fn are_blocks(
    label: Seq<char>,
    dates: Seq<Instant>,
    symbols: Seq<Seq<char>>,
    books: Seq<Seq<Double>>,
    cash: Seq<Double>,
    least: Double,
    blocks: Seq<Seq<WeightRowView>>,
    n: int,
) -> bool {
    &&& blocks.len() == n
    &&& forall|k: int|
        0 <= k < n ==> is_block(
            label,
            dates[k],
            symbols,
            books[k],
            cash[k],
            least,
            #[trigger] blocks[k],
        )
}

/// The recorded rebalance books of portfolios, as rows of
/// `date,portfolio,symbol,weight`, trimmed to significant holdings.
///
/// One block of rows per date in descending weight order. What is left of a
/// book is its cash, which stands in its place among them under the
/// pseudo-symbol `CASH`.
#[derive(Debug)]
pub struct WeightsTable {
    rows: Vec<WeightRow>,
}

impl View for WeightsTable {
    type V = Seq<WeightRowView>;

    closed spec fn view(&self) -> Seq<WeightRowView> {
        row_views(self.rows@)
    }
}

proof fn written_lanes_are_inside(book: Seq<Double>, least: Double, n: int)
    requires
        0 <= n <= book.len(),
        n <= usize::MAX,
    ensures
        written_lanes(book, least, n).len() <= n,
        forall|i: int|
            0 <= i < written_lanes(book, least, n).len() ==> (
            #[trigger] written_lanes(book, least, n)[i]) < n && book[written_lanes(
                book,
                least,
                n,
            )[i] as int].usable(),
    decreases n,
{
    if n > 0 {
        written_lanes_are_inside(book, least, n - 1);
        let before = written_lanes(book, least, n - 1);
        let now = written_lanes(book, least, n);
        assert forall|i: int| 0 <= i < now.len() implies (#[trigger] now[i]) < n
            && book[now[i] as int].usable() by {
            if i < before.len() {
                assert(now[i] == before[i]);
            }
        }
    }
}

/// The weights that are held, in lane order: what a book's cash is short of
/// one by.
pub fn held(book: &Vec<Double>) -> (r: Vec<Double>)
    ensures
        r@ == usable_samples(book@, book@.len() as int),
{
    nav_samples(book)
}

impl WeightsTable {
    /// A table without rows.
    pub fn new() -> (r: WeightsTable)
        ensures
            r@ == Seq::<WeightRowView>::empty(),
    {
        let r = WeightsTable { rows: Vec::new() };
        assert(r@ =~= Seq::<WeightRowView>::empty());
        r
    }

    /// The number of rows.
    pub fn len(&self) -> (r: usize)
        ensures
            r == self@.len(),
    {
        self.rows.len()
    }

    /// The rows, in write order.
    pub fn rows(&self) -> (r: &Vec<WeightRow>)
        ensures
            row_views(r@) == self@,
    {
        &self.rows
    }

    /// Adds the rows of the books recorded at `instants`: holdings of at least
    /// `min_weight` and the cash residual, largest first per date. `symbols`
    /// is the axis of the books, and `cash[k]` is one less the sum of what
    /// book `k` has [`held`].
    pub fn add(
        &mut self,
        label: &str,
        symbols: &Vec<String>,
        min_weight: Double,
        instants: &Vec<Instant>,
        books: &Vec<Vec<Double>>,
        cash: &Vec<Double>,
    )
        requires
            books@.len() == instants@.len(),
            cash@.len() == instants@.len(),
            forall|k: int| 0 <= k < books@.len() ==> (#[trigger] books@[k])@.len() <= symbols@.len(),
        ensures
            exists|blocks: Seq<Seq<WeightRowView>>| #[trigger]
                are_blocks(
                    label@,
                    instants@,
                    texts(symbols@),
                    columns(books@),
                    cash@,
                    threshold(min_weight),
                    blocks,
                    instants@.len() as int,
                ) && final(self)@ == old(self)@ + blocks.flatten(),
    {
        let ghost mut blocks: Seq<Seq<WeightRowView>> = seq![];
        let ghost least = threshold(min_weight);
        proof {
            assert(blocks.flatten() =~= seq![]);
            assert(old(self)@ + blocks.flatten() =~= old(self)@);
        }
        for k in 0..instants.len()
            invariant
                books@.len() == instants@.len(),
                cash@.len() == instants@.len(),
                forall|k: int|
                    0 <= k < books@.len() ==> (#[trigger] books@[k])@.len() <= symbols@.len(),
                least == threshold(min_weight),
                are_blocks(
                    label@,
                    instants@,
                    texts(symbols@),
                    columns(books@),
                    cash@,
                    least,
                    blocks,
                    k as int,
                ),
                self@ == old(self)@ + blocks.flatten(),
        {
            let ghost before = self@;
            self.add_book(label, symbols, min_weight, instants[k], &books[k], cash[k]);
            proof {
                let block = choose|block: Seq<WeightRowView>| #[trigger]
                    is_block(
                        label@,
                        instants@[k as int],
                        texts(symbols@),
                        books@[k as int]@,
                        cash@[k as int],
                        least,
                        block,
                    ) && self@ == before + block;
                let ghost more = blocks.push(block);
                blocks.lemma_flatten_push(block);
                assert(self@ =~= old(self)@ + more.flatten());
                assert(columns(books@)[k as int] == books@[k as int]@);
                assert forall|j: int| 0 <= j < k + 1 implies is_block(
                    label@,
                    instants@[j],
                    texts(symbols@),
                    columns(books@)[j],
                    cash@[j],
                    least,
                    #[trigger] more[j],
                ) by {
                    if j < k {
                        assert(more[j] == blocks[j]);
                    }
                }
                blocks = more;
            }
        }
    }

    /// Adds the rows of one book.
    fn add_book(
        &mut self,
        label: &str,
        symbols: &Vec<String>,
        min_weight: Double,
        date: Instant,
        book: &Vec<Double>,
        cash: Double,
    )
        requires
            book@.len() <= symbols@.len(),
        ensures
            exists|block: Seq<WeightRowView>| #[trigger]
                is_block(
                    label@,
                    date,
                    texts(symbols@),
                    book@,
                    cash,
                    threshold(min_weight),
                    block,
                ) && final(self)@ == old(self)@ + block,
    {
        let least = min_weight.greater_of(Double { bits: DUST });
        let ghost named = texts(symbols@);
        let ghost rows = book_rows(label@, date, named, book@, cash, least);
        let mut lanes: Vec<usize> = Vec::new();
        let mut keys: Vec<i64> = Vec::new();
        for i in 0..book.len()
            invariant
                lanes@ == written_lanes(book@, least, i as int),
                keys@ == lanes@.map_values(|lane: usize| (-book@[lane as int].rank()) as i64),
        {
            if book[i].is_usable() && least.is_at_most(book[i]) {
                lanes.push(i);
                keys.push(-book[i].order());
                assert(keys@ =~= lanes@.map_values(
                    |lane: usize| (-book@[lane as int].rank()) as i64,
                ));
            }
        }
        if least.is_at_most(cash) {
            keys.push(-cash.order());
        }
        proof {
            written_lanes_are_inside(book@, least, book@.len() as int);
            assert(keys@ =~= by_weight(rows));
        }
        let order = sorted_places(&keys);
        let ghost before = self@;
        assert(before + arranged(rows, order@.take(0)) =~= before);
        for i in 0..order.len()
            invariant
                book@.len() <= symbols@.len(),
                named == texts(symbols@),
                lanes@ == written_lanes(book@, least, book@.len() as int),
                rows == book_rows(label@, date, named, book@, cash, least),
                orders(keys@, 0, rows.len() as int, order@),
                forall|k: int| 0 <= k < lanes@.len() ==> (#[trigger] lanes@[k]) < book@.len(),
                self@ == before + arranged(rows, order@.take(i as int)),
        {
            let ghost so_far = self@;
            let place: usize = order[i];
            if place < lanes.len() {
                let lane: usize = lanes[place];
                self.rows.push(
                    WeightRow {
                        portfolio: label.to_string(),
                        date,
                        symbol: symbols[lane].clone(),
                        weight: book[lane],
                    },
                );
                assert(rows[place as int] == holding_row(label@, date, named, book@, lane as int));
            } else {
                self.rows.push(
                    WeightRow {
                        portfolio: label.to_string(),
                        date,
                        symbol: "CASH".to_string(),
                        weight: cash,
                    },
                );
                assert(rows[place as int] == cash_rows(label@, date, cash, least)[0]);
            }
            proof {
                assert(self@ =~= so_far.push(rows[place as int]));
                assert(order@.take(i + 1) =~= order@.take(i as int).push(place));
                assert(self@ =~= before + arranged(rows, order@.take(i + 1)));
            }
        }
        proof {
            assert(order@.take(order@.len() as int) =~= order@);
            assert(is_block(
                label@,
                date,
                named,
                book@,
                cash,
                threshold(min_weight),
                arranged(rows, order@),
            ));
        }
    }

    /// The rows as `date,portfolio,symbol,weight` CSV. `cells[i]` is the text
    /// of the weight of row `i`.
    pub fn write(&self, cells: &Vec<String>) -> (r: String)
        requires
            cells@.len() == self@.len(),
        ensures
            r@ == weights_csv(self@, texts(cells@)),
    {
        let mut csv = "date,portfolio,symbol,weight\n".to_string();
        let ghost head = csv@;
        assert(head + weight_lines(self@, texts(cells@), 0) =~= head);
        for i in 0..self.rows.len()
            invariant
                cells@.len() == self@.len(),
                self@.len() == self.rows@.len(),
                csv@ == head + weight_lines(self@, texts(cells@), i as int),
        {
            let row = &self.rows[i];
            let line = format_date(row.date).concat(",").concat(row.portfolio.as_str()).concat(
                ",",
            ).concat(row.symbol.as_str()).concat(",").concat(cells[i].as_str()).concat("\n");
            assert(self@[i as int] == row@);
            assert(line@ == weight_line(self@[i as int], texts(cells@)[i as int]));
            csv.append(line.as_str());
            assert(csv@ =~= head + weight_lines(self@, texts(cells@), i + 1));
        }
        csv
    }
}

/// A line of a weight table.
pub open spec fn weight_line(row: WeightRowView, cell: Seq<char>) -> Seq<char> {
    date_of(row.date) + ","@ + row.portfolio + ","@ + row.symbol + ","@ + cell + "\n"@
}

/// The first `n` lines of a weight table.
pub open spec fn weight_lines(
    rows: Seq<WeightRowView>,
    cells: Seq<Seq<char>>,
    n: int,
) -> Seq<char>
    decreases n,
{
    if n <= 0 {
        seq![]
    } else {
        weight_lines(rows, cells, n - 1) + weight_line(rows[n - 1], cells[n - 1])
    }
}

/// A weight table as CSV.
pub open spec fn weights_csv(rows: Seq<WeightRowView>, cells: Seq<Seq<char>>) -> Seq<char> {
    "date,portfolio,symbol,weight\n"@ + weight_lines(rows, cells, rows.len() as int)
}

/// The rows of a book, holdings and cash alike, come with falling weights: of
/// two rows the one written first weighs at least as much, and none weighs
/// less than is written.
pub proof fn weights_fall(
    label: Seq<char>,
    date: Instant,
    symbols: Seq<Seq<char>>,
    book: Seq<Double>,
    cash: Double,
    least: Double,
    block: Seq<WeightRowView>,
    i: int,
    j: int,
)
    requires
        book.len() <= usize::MAX,
        is_block(label, date, symbols, book, cash, least, block),
        0 <= i < j < block.len(),
    ensures
        block[j].weight.at_most(block[i].weight),
        least.at_most(block[j].weight),
{
    let n = book.len() as int;
    let lanes = written_lanes(book, least, n);
    let rows = book_rows(label, date, symbols, book, cash, least);
    let keys = by_weight(rows);
    let order = choose|order: Seq<usize>| #[trigger]
        orders(keys, 0, rows.len() as int, order) && block == arranged(rows, order);
    written_lanes_weigh(book, least, n);
    assert forall|k: int| 0 <= k < rows.len() implies least.at_most(
        (#[trigger] rows[k]).weight,
    ) by {
        if k < lanes.len() {
            assert(rows[k] == holding_row(label, date, symbols, book, lanes[k] as int));
        } else {
            assert(rows[k] == cash_rows(label, date, cash, least)[0]);
        }
    }
    let (p, q) = (order[i] as int, order[j] as int);
    assert(precedes(keys, p, q));
    assert(block[i] == rows[p] && block[j] == rows[q]);
    assert(keys[p] == (-rows[p].weight.rank()) as i64);
    assert(keys[q] == (-rows[q].weight.rank()) as i64);
}

proof fn written_lanes_weigh(book: Seq<Double>, least: Double, n: int)
    requires
        0 <= n <= book.len(),
        n <= usize::MAX,
    ensures
        forall|i: int|
            0 <= i < written_lanes(book, least, n).len() ==> least.at_most(
                book[(#[trigger] written_lanes(book, least, n)[i]) as int],
            ),
    decreases n,
{
    if n > 0 {
        written_lanes_weigh(book, least, n - 1);
        let before = written_lanes(book, least, n - 1);
        let now = written_lanes(book, least, n);
        assert forall|i: int| 0 <= i < now.len() implies least.at_most(
            book[(#[trigger] now[i]) as int],
        ) by {
            if i < before.len() {
                assert(now[i] == before[i]);
            }
        }
    }
}

/// A curve of usable values is its own samples.
pub proof fn usable_values_are_all_sampled(values: Seq<Double>, n: int)
    requires
        0 <= n <= values.len(),
        forall|i: int| 0 <= i < n ==> (#[trigger] values[i]).usable(),
    ensures
        usable_samples(values, n) == values.take(n),
    decreases n,
{
    if n > 0 {
        usable_values_are_all_sampled(values, n - 1);
        assert(values[n - 1].usable());
        assert(values.take(n) =~= values.take(n - 1).push(values[n - 1]));
    } else {
        assert(values.take(0) =~= seq![]);
    }
}

/// A curve of finite values is its own finite samples, and one that is not
/// finite counts for nothing.
pub proof fn finite_values_are_all_sampled(values: Seq<Double>, n: int)
    requires
        0 <= n <= values.len(),
    ensures
        (forall|i: int| 0 <= i < n ==> (#[trigger] values[i]).finite()) ==> finite_samples(
            values,
            n,
        ) == values.take(n),
        (forall|i: int| 0 <= i < n ==> !(#[trigger] values[i]).finite()) ==> finite_samples(
            values,
            n,
        ) == Seq::<Double>::empty(),
        n > 0 && !values[n - 1].finite() ==> finite_samples(values, n) == finite_samples(
            values,
            n - 1,
        ),
        n > 0 && values[n - 1].finite() ==> finite_samples(values, n).last() == values[n - 1],
    decreases n,
{
    if n > 0 {
        finite_values_are_all_sampled(values, n - 1);
        if forall|i: int| 0 <= i < n ==> (#[trigger] values[i]).finite() {
            assert(values[n - 1].finite());
            assert(values.take(n) =~= values.take(n - 1).push(values[n - 1]));
        }
        if forall|i: int| 0 <= i < n ==> !(#[trigger] values[i]).finite() {
            assert(!values[n - 1].finite());
        }
    } else {
        assert(values.take(0) =~= seq![]);
    }
}

/// The deepest of drawdowns is never above zero, none that is there is
/// deeper, and it is one of them unless none lies below zero.
pub proof fn no_drawdown_is_deeper(drawdowns: Seq<Double>, n: int)
    requires
        0 <= n <= drawdowns.len(),
    ensures
        deepest(drawdowns, n).at_most(Double { bits: 0 }),
        forall|i: int|
            0 <= i < n && !(#[trigger] drawdowns[i]).nan() ==> deepest(drawdowns, n).at_most(
                drawdowns[i],
            ),
        deepest(drawdowns, n).rank() < 0 ==> exists|i: int|
            0 <= i < n && #[trigger] drawdowns[i] == deepest(drawdowns, n),
        deepest(drawdowns, n).rank() == 0 ==> deepest(drawdowns, n) == (Double { bits: 0 }),
    decreases n,
{
    if n > 0 {
        no_drawdown_is_deeper(drawdowns, n - 1);
        let before = deepest(drawdowns, n - 1);
        if drawdowns[n - 1].below(before) {
            assert(drawdowns[n - 1] == deepest(drawdowns, n));
        } else if before.rank() < 0 {
            let i = choose|i: int| 0 <= i < n - 1 && #[trigger] drawdowns[i] == before;
            assert(drawdowns[i] == deepest(drawdowns, n));
        }
    }
}

/// A curve's final value is its last sample. With ten samples its growth and
/// its deviation are those given, its drawdown is the deepest, and its Sharpe
/// ratio is the one given exactly when its returns deviate at all; with fewer
/// it has none of these.
pub proof fn a_short_curve_has_no_ratios(
    samples: Seq<Double>,
    ratios: Ratios,
    drawdowns: Seq<Double>,
)
    ensures
        ({
            let s = stats_of(samples, ratios, drawdowns);
            &&& samples.len() > 0 ==> s.final_value == samples[samples.len() - 1]
            &&& samples.len() == 0 ==> s.final_value.nan()
            &&& samples.len() < 10 ==> s.cagr.nan() && s.sharpe.nan() && s.vol.nan()
                && s.max_drawdown.nan()
            &&& samples.len() >= 10 ==> s.cagr == ratios.cagr && s.vol == ratios.vol
                && s.max_drawdown.at_most(Double { bits: 0 })
            &&& samples.len() >= 10 && !ratios.deviation.nan() && ratios.deviation.rank() > 0
                ==> s.sharpe == ratios.sharpe
            &&& samples.len() >= 10 && (ratios.deviation.nan() || ratios.deviation.rank() <= 0)
                ==> s.sharpe.nan()
            &&& forall|i: int|
                samples.len() >= 10 && 0 <= i < drawdowns.len() && !(#[trigger] drawdowns[i]).nan()
                    ==> s.max_drawdown.at_most(drawdowns[i])
        }),
{
    no_drawdown_is_deeper(drawdowns, drawdowns.len() as int);
}

/// The least weight that is written is no less than the given one and than
/// dust, and it is one of the two. Dust is the number closest to a billionth.
pub proof fn dust_is_never_written(min_weight: Double)
    ensures
        closest(Double { bits: DUST }, 1, 1_000_000_000, 82),
        (Double { bits: DUST }).at_most(threshold(min_weight)),
        !min_weight.nan() ==> min_weight.at_most(threshold(min_weight)),
        threshold(min_weight) == min_weight || threshold(min_weight) == (Double { bits: DUST }),
        min_weight.nan() ==> threshold(min_weight) == (Double { bits: DUST }),
{
    vstd::arithmetic::power2::lemma2_to64();
    vstd::arithmetic::power2::lemma2_to64_rest();
    vstd::arithmetic::power2::lemma_pow2_adds(60, 22);
}

/// A holding is written exactly when it is finite, positive and of at least
/// the least weight, and it is written once.
pub proof fn a_holding_is_written_once(book: Seq<Double>, least: Double, n: int, lane: int)
    requires
        0 <= lane < n <= book.len(),
        n <= usize::MAX,
    ensures
        written_lanes(book, least, n).contains(lane as usize) <==> (book[lane].finite()
            && book[lane].rank() > 0 && !least.nan() && least.rank() <= book[lane].rank()),
        forall|i: int, j: int|
            0 <= i < j < written_lanes(book, least, n).len() ==> written_lanes(book, least, n)[i]
                < written_lanes(book, least, n)[j],
        forall|i: int|
            0 <= i < written_lanes(book, least, n).len() ==> written_lanes(book, least, n)[i] < n,
    decreases n,
{
    let now = written_lanes(book, least, n);
    let before = written_lanes(book, least, n - 1);
    if n > 1 {
        a_holding_is_written_once(
            book,
            least,
            n - 1,
            if lane < n - 1 {
                lane
            } else {
                0
            },
        );
    } else {
        assert(before =~= seq![]);
    }
    if lane < n - 1 {
        if before.contains(lane as usize) {
            let i = choose|i: int| 0 <= i < before.len() && before[i] == lane as usize;
            assert(now[i] == lane as usize);
        }
        if now.contains(lane as usize) {
            let i = choose|i: int| 0 <= i < now.len() && now[i] == lane as usize;
            assert(before[i] == lane as usize);
        }
    } else if now.contains(lane as usize) {
        let i = choose|i: int| 0 <= i < now.len() && now[i] == lane as usize;
        if i < before.len() {
            assert(before[i] == lane as usize);
        }
    } else if book[lane].usable() && least.at_most(book[lane]) {
        assert(now[before.len() as int] == lane as usize);
    }
}

/// Every holding that is written stands in the block of its date, under its
/// own symbol with its own weight, and so does the cash when there is enough
/// of it.
pub proof fn a_block_has_every_holding(
    label: Seq<char>,
    date: Instant,
    symbols: Seq<Seq<char>>,
    book: Seq<Double>,
    cash: Double,
    least: Double,
    block: Seq<WeightRowView>,
    lane: int,
)
    requires
        book.len() <= usize::MAX,
        is_block(label, date, symbols, book, cash, least, block),
        0 <= lane < book.len(),
    ensures
        book[lane].finite() && book[lane].rank() > 0 && !least.nan() && least.rank()
            <= book[lane].rank() ==> block.contains(
            WeightRowView { portfolio: label, date, symbol: symbols[lane], weight: book[lane] },
        ),
        !least.nan() && !cash.nan() && least.rank() <= cash.rank() ==> block.contains(
            WeightRowView { portfolio: label, date, symbol: "CASH"@, weight: cash },
        ),
{
    let n = book.len() as int;
    let lanes = written_lanes(book, least, n);
    let rows = book_rows(label, date, symbols, book, cash, least);
    let order = choose|order: Seq<usize>| #[trigger]
        orders(by_weight(rows), 0, rows.len() as int, order) && block == arranged(rows, order);
    a_holding_is_written_once(book, least, n, lane);
    written_lanes_are_inside(book, least, n);
    if lanes.contains(lane as usize) {
        let i = choose|i: int| 0 <= i < lanes.len() && lanes[i] == lane as usize;
        assert(rows[i] == holding_row(label, date, symbols, book, lane));
        rows_are_arranged(rows, order, i);
    }
    if !least.nan() && !cash.nan() && least.rank() <= cash.rank() {
        let i = lanes.len() as int;
        assert(rows[i] == cash_rows(label, date, cash, least)[0]);
        rows_are_arranged(rows, order, i);
    }
}

/// A block has rows of its own book alone: a holding of it, or its cash.
pub proof fn a_block_has_nothing_else(
    label: Seq<char>,
    date: Instant,
    symbols: Seq<Seq<char>>,
    book: Seq<Double>,
    cash: Double,
    least: Double,
    block: Seq<WeightRowView>,
    i: int,
)
    requires
        book.len() <= usize::MAX,
        is_block(label, date, symbols, book, cash, least, block),
        0 <= i < block.len(),
    ensures
        block[i].portfolio == label,
        block[i].date == date,
        (block[i].symbol == "CASH"@ && block[i].weight == cash) || exists|lane: int|
            0 <= lane < book.len() && #[trigger] book[lane] == block[i].weight && symbols[lane]
                == block[i].symbol,
{
    let n = book.len() as int;
    let lanes = written_lanes(book, least, n);
    let rows = book_rows(label, date, symbols, book, cash, least);
    let order = choose|order: Seq<usize>| #[trigger]
        orders(by_weight(rows), 0, rows.len() as int, order) && block == arranged(rows, order);
    written_lanes_are_inside(book, least, n);
    let p = order[i] as int;
    assert(block[i] == rows[p]);
    if p < lanes.len() {
        let lane = lanes[p] as int;
        assert(rows[p] == holding_row(label, date, symbols, book, lane));
        assert(book[lane] == block[i].weight);
    } else {
        assert(rows[p] == cash_rows(label, date, cash, least)[0]);
    }
}

proof fn rows_are_arranged(rows: Seq<WeightRowView>, order: Seq<usize>, i: int)
    requires
        orders(by_weight(rows), 0, rows.len() as int, order),
        0 <= i < rows.len(),
        rows.len() <= usize::MAX + 1,
    ensures
        arranged(rows, order).contains(rows[i]),
{
    assert(order.contains(i as usize));
    let j = choose|j: int| 0 <= j < order.len() && order[j] == i as usize;
    assert(arranged(rows, order)[j] == rows[i]);
}

/// Trimming keeps exactly what is not before the start, of instants that
/// ascend.
pub proof fn trimming_keeps_what_is_not_before(
    instants: Seq<Instant>,
    start: Instant,
    at: int,
    i: int,
)
    requires
        starts_at(instants, Some(start), at),
        forall|j: int, k: int|
            0 <= j <= k < instants.len() ==> (#[trigger] instants[j]).nanos <= (
            #[trigger] instants[k]).nanos,
        0 <= i < instants.len(),
    ensures
        i >= at <==> instants[i].nanos >= start.nanos,
{
    if i >= at {
        assert(instants[at].nanos <= instants[i].nanos);
    }
}

/// Adding a column keeps the others and the axis, and puts the label and the
/// values last.
pub proof fn a_new_column_comes_last(
    table: TableView,
    label: Seq<char>,
    instants: Seq<Instant>,
    values: Seq<Double>,
)
    ensures
        ({
            let more = table.with(label, instants, values);
            &&& more.labels.len() == table.labels.len() + 1
            &&& more.labels.last() == label
            &&& more.labels.drop_last() == table.labels
            &&& more.values.last() == values
            &&& more.values.drop_last() == table.values
            &&& table.labels.len() > 0 ==> more.instants == table.instants
            &&& table.labels.len() == 0 ==> more.instants == instants
        }),
{
    let more = table.with(label, instants, values);
    assert(more.labels.drop_last() =~= table.labels);
    assert(more.values.drop_last() =~= table.values);
}

} // verus!
