//! The scorer's readouts: the statistics of each scored book, the net asset
//! value table, and the leverage check.
use vstd::prelude::*;

use crate::double::Double;
use crate::graph::texts;
use crate::report::{
    LEAST_SAMPLES, MISALIGNED, Ratios, ReportStats, cells_fit, columns, finite_samples, kept_from,
    nav_stats, stats_of, table_csv, tail_of, trim, usable_samples, write_table,
};
use crate::time::Instant;
use crate::report::{a_curve_starts_once, starts_at};

verus! {

/// Summary statistics of one scored book.
#[derive(Debug)]
pub struct PortfolioStats {
    pub label: String,
    pub final_value: Double,
    pub cagr: Double,
    pub vol: Double,
    pub sharpe: Double,
    pub max_drawdown: Double,
    /// Annualized two-way turnover: the change of weights that the book
    /// accumulated per year.
    pub turnover: Double,
    /// The largest gross exposure that any of the book's rebalances asked
    /// for.
    pub max_gross: Double,
}

/// The statistics of one scored book, with its label as characters.
pub ghost struct PortfolioView {
    pub label: Seq<char>,
    pub nav: ReportStats,
    pub turnover: Double,
    pub max_gross: Double,
}

impl View for PortfolioStats {
    type V = PortfolioView;

    open spec fn view(&self) -> PortfolioView {
        PortfolioView {
            label: self.label@,
            nav: ReportStats {
                final_value: self.final_value,
                cagr: self.cagr,
                sharpe: self.sharpe,
                vol: self.vol,
                max_drawdown: self.max_drawdown,
            },
            turnover: self.turnover,
            max_gross: self.max_gross,
        }
    }
}

/// The greatest of zero and the finite values among the first `n`.
pub open spec fn greatest_finite(values: Seq<Double>, n: int) -> Double
    decreases n,
{
    if n <= 0 {
        Double { bits: 0 }
    } else if values[n - 1].finite() {
        greatest_finite(values, n - 1).greater(values[n - 1])
    } else {
        greatest_finite(values, n - 1)
    }
}

/// The largest of the finite exposures, zero without any.
pub fn largest(gross: &Vec<Double>) -> (r: Double)
    ensures
        r == greatest_finite(gross@, gross@.len() as int),
{
    let mut most = Double { bits: 0 };
    for i in 0..gross.len()
        invariant
            most == greatest_finite(gross@, i as int),
    {
        if gross[i].is_finite() {
            most = most.greater_of(gross[i]);
        }
    }
    most
}

/// The largest exposure is never missing, and no finite exposure exceeds it.
pub proof fn no_exposure_exceeds_the_largest(gross: Seq<Double>, n: int, i: int)
    requires
        0 <= i < n <= gross.len(),
        gross[i].finite(),
    ensures
        greatest_finite(gross, n).finite(),
        gross[i].at_most(greatest_finite(gross, n)),
        (Double { bits: 0 }).at_most(greatest_finite(gross, n)),
    decreases n,
{
    the_largest_is_finite(gross, n - 1);
    if i < n - 1 {
        no_exposure_exceeds_the_largest(gross, n - 1, i);
    }
}

proof fn the_largest_is_finite(gross: Seq<Double>, n: int)
    requires
        0 <= n <= gross.len(),
    ensures
        greatest_finite(gross, n).finite(),
        (Double { bits: 0 }).at_most(greatest_finite(gross, n)),
    decreases n,
{
    if n > 0 {
        the_largest_is_finite(gross, n - 1);
    }
}

/// The ends of a cumulative curve: its first and last finite values, and how
/// many there are.
#[derive(Clone, Copy, Debug, PartialEq, Eq, Structural)]
pub struct Span {
    pub first: Double,
    pub last: Double,
    pub samples: usize,
}

/// What a cumulative curve accumulated: from its first to its last finite
/// value, over so many samples; nothing is told below [`LEAST_SAMPLES`]. The
/// curve measures intended trading: it does not see the drift of held weights
/// between rebalances.
pub fn annualized(curve: &Vec<Double>) -> (r: Option<Span>)
    ensures
        ({
            let s = finite_samples(curve@, curve@.len() as int);
            match r {
                Some(span) => s.len() >= LEAST_SAMPLES && span.first == s[0] && span.last
                    == s.last() && span.samples == s.len(),
                None => s.len() < LEAST_SAMPLES,
            }
        }),
{
    let mut s: Vec<Double> = Vec::new();
    for i in 0..curve.len()
        invariant
            s@ == finite_samples(curve@, i as int),
    {
        if curve[i].is_finite() {
            s.push(curve[i]);
        }
    }
    if s.len() < LEAST_SAMPLES {
        return None;
    }
    Some(Span { first: s[0], last: s[s.len() - 1], samples: s.len() })
}

/// Statistics from a daily net asset value curve and the gross exposure
/// recorded beside it, given the ratios and the drawdowns of the curve's
/// samples and the annualized turnover.
pub fn stats(
    label: &str,
    nav: &Vec<Double>,
    gross: &Vec<Double>,
    ratios: Ratios,
    drawdowns: &Vec<Double>,
    turnover: Double,
) -> (r: PortfolioStats)
    ensures
        r@ == (PortfolioView {
            label: label@,
            nav: stats_of(usable_samples(nav@, nav@.len() as int), ratios, drawdowns@),
            turnover,
            max_gross: greatest_finite(gross@, gross@.len() as int),
        }),
{
    let s = nav_stats(nav, ratios, drawdowns);
    PortfolioStats {
        label: label.to_string(),
        final_value: s.final_value,
        cagr: s.cagr,
        vol: s.vol,
        sharpe: s.sharpe,
        max_drawdown: s.max_drawdown,
        turnover,
        max_gross: largest(gross),
    }
}

/// The recorded series of one book, on the daily pulse.
#[derive(Debug)]
pub struct Curves {
    pub instants: Vec<Instant>,
    /// Daily net asset value.
    pub nav: Vec<Double>,
    /// Cumulative turnover.
    pub turnover: Vec<Double>,
    /// Gross exposure.
    pub gross: Vec<Double>,
}

/// The messages about companion curves of another length than the net asset
/// value's.
pub const MISALIGNED_TURNOVER: &'static str = "misaligned turnover curve";

pub const MISALIGNED_EXPOSURE: &'static str = "misaligned exposure curve";

impl Curves {
    /// The curves from `start` on.
    pub open spec fn from(self, start: Option<Instant>) -> CurvesView {
        let at = kept_from(self.instants@, start);
        CurvesView {
            instants: self.instants@.skip(at),
            nav: self.nav@.skip(at),
            turnover: self.turnover@.skip(at),
            gross: self.gross@.skip(at),
        }
    }

    /// Trims the warm-up of the curves before `start`. Companion curves share
    /// the pulse of the net asset value, so its trim applies; one of another
    /// length is refused.
    pub fn trimmed(&self, start: Option<Instant>) -> (r: Result<Curves, String>)
        requires
            self.nav@.len() == self.instants@.len(),
        ensures
            match r {
                Ok(c) => {
                    &&& self.turnover@.len() == self.nav@.len()
                    &&& self.gross@.len() == self.nav@.len()
                    &&& c@ == self.from(start)
                },
                Err(message) => if self.turnover@.len() != self.nav@.len() {
                    message@ == MISALIGNED_TURNOVER@
                } else {
                    self.gross@.len() != self.nav@.len() && message@ == MISALIGNED_EXPOSURE@
                },
            },
    {
        let keep = trim(&self.instants, start);
        if self.turnover.len() != self.nav.len() {
            return Err(MISALIGNED_TURNOVER.to_string());
        }
        if self.gross.len() != self.nav.len() {
            return Err(MISALIGNED_EXPOSURE.to_string());
        }
        Ok(
            Curves {
                instants: tail_of(&self.instants, keep),
                nav: tail_of(&self.nav, keep),
                turnover: tail_of(&self.turnover, keep),
                gross: tail_of(&self.gross, keep),
            },
        )
    }
}

/// The recorded series of one book, as sequences.
pub ghost struct CurvesView {
    pub instants: Seq<Instant>,
    pub nav: Seq<Double>,
    pub turnover: Seq<Double>,
    pub gross: Seq<Double>,
}

impl View for Curves {
    type V = CurvesView;

    open spec fn view(&self) -> CurvesView {
        CurvesView {
            instants: self.instants@,
            nav: self.nav@,
            turnover: self.turnover@,
            gross: self.gross@,
        }
    }
}

/// The scored books: their statistics, and their net asset value columns on
/// one date axis.
#[derive(Debug)]
pub struct Report {
    instants: Vec<Instant>,
    stats: Vec<PortfolioStats>,
    navs: Vec<Vec<Double>>,
}

/// The scored books, as sequences.
pub ghost struct ReportView {
    pub instants: Seq<Instant>,
    pub stats: Seq<PortfolioView>,
    pub navs: Seq<Seq<Double>>,
}

/// The statistics of books.
pub open spec fn stat_views(v: Seq<PortfolioStats>) -> Seq<PortfolioView> {
    v.map_values(|s: PortfolioStats| s@)
}

impl View for Report {
    type V = ReportView;

    closed spec fn view(&self) -> ReportView {
        ReportView {
            instants: self.instants@,
            stats: stat_views(self.stats@),
            navs: columns(self.navs@),
        }
    }
}

impl ReportView {
    /// Whether every book has a column with a value per instant.
    pub open spec fn aligned(self) -> bool {
        &&& self.stats.len() == self.navs.len()
        &&& forall|j: int|
            0 <= j < self.navs.len() ==> (#[trigger] self.navs[j]).len() == self.instants.len()
    }

    /// The labels of the books.
    pub open spec fn labels(self) -> Seq<Seq<char>> {
        self.stats.map_values(|s: PortfolioView| s.label)
    }

    /// The report with a book added; the first one sets the axis.
    pub open spec fn with(
        self,
        stats: PortfolioView,
        instants: Seq<Instant>,
        nav: Seq<Double>,
    ) -> ReportView {
        ReportView {
            instants: if self.stats.len() == 0 {
                instants
            } else {
                self.instants
            },
            stats: self.stats.push(stats),
            navs: self.navs.push(nav),
        }
    }
}

/// The label of a book and its exposure, as the leverage check names it.
pub open spec fn named_book(label: Seq<char>, gross: Seq<char>) -> Seq<char> {
    label + " at "@ + gross
}

/// The books among the first `n` whose exposure is above `limit`, by name.
pub open spec fn over_limit(
    stats: Seq<PortfolioView>,
    limit: Double,
    gross_texts: Seq<Seq<char>>,
    n: int,
) -> Seq<Seq<char>>
    decreases n,
{
    if n <= 0 {
        seq![]
    } else if limit.below(stats[n - 1].max_gross) {
        over_limit(stats, limit, gross_texts, n - 1).push(
            named_book(stats[n - 1].label, gross_texts[n - 1]),
        )
    } else {
        over_limit(stats, limit, gross_texts, n - 1)
    }
}

/// The first `n` texts, with a comma and a space between them.
pub open spec fn listing(v: Seq<Seq<char>>, n: int) -> Seq<char>
    decreases n,
{
    if n <= 0 {
        seq![]
    } else if n == 1 {
        v[0]
    } else {
        listing(v, n - 1) + ", "@ + v[n - 1]
    }
}

/// The message about books above the limit.
pub open spec fn gross_message(limit_text: Seq<char>, over: Seq<Seq<char>>) -> Seq<char> {
    "gross exposure above the scorer's limit of "@ + limit_text + ": "@ + listing(
        over,
        over.len() as int,
    )
}

impl Report {
    /// A report without books.
    pub fn new() -> (r: Report)
        ensures
            r@.aligned(),
            r@ == (ReportView { instants: Seq::empty(), stats: Seq::empty(), navs: Seq::empty() }),
    {
        let r = Report { instants: Vec::new(), stats: Vec::new(), navs: Vec::new() };
        assert(r@.stats =~= Seq::empty());
        assert(r@.navs =~= Seq::empty());
        r
    }

    /// Adds a book's statistics and its net asset value column. A curve of
    /// another length than the others is refused, and the report stays as it
    /// is.
    pub fn add(&mut self, s: PortfolioStats, curves: Curves) -> (r: Result<(), String>)
        requires
            old(self)@.aligned(),
            curves.nav@.len() == curves.instants@.len(),
        ensures
            final(self)@.aligned(),
            ({
                let fits = old(self)@.stats.len() == 0 || old(self)@.instants.len()
                    == curves.instants@.len();
                match r {
                    Ok(_) => fits && final(self)@ == old(self)@.with(
                        s@,
                        curves.instants@,
                        curves.nav@,
                    ),
                    Err(message) => !fits && final(self)@ == old(self)@ && message@
                        == MISALIGNED@,
                }
            }),
    {
        assert(stat_views(self.stats@).len() == self.stats@.len());
        let Curves { instants, nav, turnover: _, gross: _ } = curves;
        if self.stats.len() == 0 {
            self.instants = instants;
        } else if self.instants.len() != instants.len() {
            return Err(MISALIGNED.to_string());
        }
        self.stats.push(s);
        self.navs.push(nav);
        proof {
            let now = self@;
            assert(now.stats =~= old(self)@.stats.push(s@));
            assert(now.navs =~= old(self)@.navs.push(nav@));
            assert forall|j: int| 0 <= j < now.navs.len() implies (
            #[trigger] now.navs[j]).len() == now.instants.len() by {
                if j < old(self)@.navs.len() {
                    assert(now.navs[j] == old(self)@.navs[j]);
                }
            }
        }
        Ok(())
    }

    /// The scored books, in the order they were added.
    pub fn stats(&self) -> (r: &Vec<PortfolioStats>)
        ensures
            stat_views(r@) == self@.stats,
    {
        &self.stats
    }

    /// The number of instants of the axis.
    pub fn points(&self) -> (r: usize)
        ensures
            r == self@.instants.len(),
    {
        self.instants.len()
    }

    /// The net asset values of book `j`.
    pub fn nav(&self, j: usize) -> (r: &Vec<Double>)
        requires
            j < self@.navs.len(),
        ensures
            r@ == self@.navs[j as int],
    {
        &self.navs[j]
    }

    /// Rejects any book whose gross exposure exceeded `limit`, naming all of
    /// them. `limit` is the limit that `limit_text` spells, with room for the
    /// rounding of printed weights; `gross_texts[i]` spells the exposure of
    /// book `i`.
    pub fn enforce_gross(
        &self,
        limit: Double,
        limit_text: &str,
        gross_texts: &Vec<String>,
    ) -> (r: Result<(), String>)
        requires
            gross_texts@.len() == self@.stats.len(),
        ensures
            ({
                let over = over_limit(
                    self@.stats,
                    limit,
                    texts(gross_texts@),
                    self@.stats.len() as int,
                );
                match r {
                    Ok(_) => over.len() == 0,
                    Err(message) => over.len() > 0 && message@ == gross_message(
                        limit_text@,
                        over,
                    ),
                }
            }),
    {
        let mut over: Vec<String> = Vec::new();
        let ghost named = over_limit(self@.stats, limit, texts(gross_texts@), 0);
        assert(texts(over@) =~= named);
        for i in 0..self.stats.len()
            invariant
                gross_texts@.len() == self@.stats.len(),
                self@.stats.len() == self.stats@.len(),
                texts(over@) == over_limit(self@.stats, limit, texts(gross_texts@), i as int),
        {
            assert(self@.stats[i as int] == self.stats@[i as int]@);
            if limit.is_below(self.stats[i].max_gross) {
                let ghost before = texts(over@);
                let name = self.stats[i].label.clone().concat(" at ").concat(
                    gross_texts[i].as_str(),
                );
                over.push(name);
                assert(texts(over@) =~= before.push(name@));
            }
        }
        if over.len() == 0 {
            return Ok(());
        }
        let mut list = over[0].clone();
        let mut i: usize = 1;
        while i < over.len()
            invariant
                1 <= i <= over@.len(),
                list@ == listing(texts(over@), i as int),
            decreases over@.len() - i,
        {
            list.append(", ");
            list.append(over[i].as_str());
            i += 1;
        }
        Err(
            "gross exposure above the scorer's limit of ".to_string().concat(limit_text).concat(
                ": ",
            ).concat(list.as_str()),
        )
    }

    /// The net asset value curves as `date,<label>,...` CSV. `cells[j][i]` is
    /// the text of value `i` of book `j`.
    pub fn write_nav(&self, cells: &Vec<Vec<String>>) -> (r: String)
        requires
            self@.aligned(),
            cells_fit(cells@, self@.stats.len() as int, self@.instants.len() as int),
        ensures
            r@ == table_csv(self@.labels(), self@.instants, cells@),
    {
        let mut labels: Vec<String> = Vec::new();
        for i in 0..self.stats.len()
            invariant
                labels@.len() == i,
                forall|k: int| 0 <= k < i ==> (#[trigger] labels@[k])@ == self.stats@[k].label@,
        {
            labels.push(self.stats[i].label.clone());
        }
        assert(texts(labels@) =~= self@.labels());
        write_table(&labels, &self.instants, cells)
    }
}

/// A report is admissible exactly when no book's exposure is above the limit.
pub proof fn no_book_is_over_unless_named(
    stats: Seq<PortfolioView>,
    limit: Double,
    gross_texts: Seq<Seq<char>>,
    n: int,
)
    requires
        0 <= n <= stats.len(),
    ensures
        over_limit(stats, limit, gross_texts, n).len() == 0 <==> forall|i: int|
            0 <= i < n ==> !limit.below((#[trigger] stats[i]).max_gross),
    decreases n,
{
    if n > 0 {
        no_book_is_over_unless_named(stats, limit, gross_texts, n - 1);
        if over_limit(stats, limit, gross_texts, n).len() == 0 {
            assert(!limit.below(stats[n - 1].max_gross));
        }
    }
}

/// The largest exposure is one of the finite ones, unless none is above zero.
pub proof fn the_largest_is_an_exposure(gross: Seq<Double>, n: int)
    requires
        0 <= n <= gross.len(),
    ensures
        greatest_finite(gross, n).rank() > 0 ==> exists|i: int|
            0 <= i < n && (#[trigger] gross[i]).finite() && gross[i] == greatest_finite(gross, n),
        greatest_finite(gross, n).rank() >= 0,
        greatest_finite(gross, n).finite(),
    decreases n,
{
    the_largest_is_finite(gross, n);
    if n > 0 {
        the_largest_is_an_exposure(gross, n - 1);
        let before = greatest_finite(gross, n - 1);
        if gross[n - 1].finite() && before.below(gross[n - 1]) {
            assert(gross[n - 1] == greatest_finite(gross, n));
        } else if before.rank() > 0 {
            let i = choose|i: int|
                0 <= i < n - 1 && (#[trigger] gross[i]).finite() && gross[i] == before;
            assert(gross[i] == greatest_finite(gross, n));
        }
    }
}

/// A book is named exactly when its exposure is above the limit, by its label
/// and its exposure.
pub proof fn a_book_over_the_limit_is_named(
    stats: Seq<PortfolioView>,
    limit: Double,
    gross_texts: Seq<Seq<char>>,
    n: int,
    i: int,
)
    requires
        0 <= i < n <= stats.len(),
        !limit.nan(),
        !stats[i].max_gross.nan(),
        limit.rank() < stats[i].max_gross.rank(),
    ensures
        over_limit(stats, limit, gross_texts, n).contains(
            stats[i].label + " at "@ + gross_texts[i],
        ),
    decreases n,
{
    let now = over_limit(stats, limit, gross_texts, n);
    let before = over_limit(stats, limit, gross_texts, n - 1);
    let named = named_book(stats[i].label, gross_texts[i]);
    if i < n - 1 {
        a_book_over_the_limit_is_named(stats, limit, gross_texts, n - 1, i);
        let k = choose|k: int| 0 <= k < before.len() && before[k] == named;
        assert(now[k] == named);
    } else {
        assert(now.last() == named);
    }
}

/// All curves of a book are trimmed alike, at the first instant that is not
/// before the start.
pub proof fn curves_are_trimmed_alike(c: Curves, start: Option<Instant>)
    requires
        c.nav@.len() == c.instants@.len(),
        c.turnover@.len() == c.nav@.len(),
        c.gross@.len() == c.nav@.len(),
        exists|at: int| starts_at(c.instants@, start, at) && 0 <= at <= c.instants@.len(),
    ensures
        ({
            let kept = c.from(start);
            let n = kept.instants.len() as int;
            let dropped = c.instants@.len() - n;
            &&& starts_at(c.instants@, start, dropped)
            &&& kept.nav.len() == n && kept.turnover.len() == n && kept.gross.len() == n
            &&& forall|i: int|
                0 <= i < n ==> #[trigger] kept.instants[i] == c.instants@[dropped + i]
                    && kept.nav[i] == c.nav@[dropped + i] && kept.turnover[i]
                    == c.turnover@[dropped + i] && kept.gross[i] == c.gross@[dropped + i]
        }),
{
    let at = choose|at: int|
        starts_at(c.instants@, start, at) && 0 <= at <= c.instants@.len();
    a_curve_starts_once(c.instants@, start, at, kept_from(c.instants@, start));
}

} // verus!
