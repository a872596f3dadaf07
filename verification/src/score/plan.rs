//! The scorer's plan: the benchmark and every submitted book, followed by the
//! same trader and recorded on the same clock.
//!
//! A submission is a file of weights, one row per date and symbol. A book is
//! a complete cross-section: a symbol that a date leaves out is held at zero,
//! and not at the weight it last had. Weights dated before the scoring window
//! are read, so that turnover and exposure are warm when it starts, and are
//! never traded.
use vstd::prelude::*;

use crate::data::outputs;
use crate::double::Double;
use crate::graph::{
    Builder, Bundle, Metric, Op, Payload, PayloadView, Pulse, Series, Term, Unary, Vector, Wire,
    port, t1, t2, t3, texts, unary,
};
use crate::ops::ticks;
use crate::paths::{Style, file_name, file_stem, machine_style, stem};
use crate::quotes::{build_quotes, quote_book};
use crate::score::args::Args;
use crate::score::data::{MarketData, MarketView};
use crate::text::{decimal, decimal_text};
use crate::time::Instant;
use crate::trade::{Venue, follow_with_fees, net_value, venue_of};
use crate::universe::{build_cap_weighted_universe, universe_of};
use crate::meaning::{
    Run, absolute, cap_weight, cross, group_values, known, num, total, value, zero_is_nothing,
};
use crate::trade::a_trader_reads_its_venue;
use crate::universe::{circulating_cap, the_universe_weighs_circulating_caps};

verus! {

/// The recorded series of one book.
pub struct Recorded {
    /// Net asset value.
    pub nav: Wire<Series>,
    /// Accumulated turnover.
    pub turnover: Wire<Series>,
    /// Gross exposure.
    pub gross: Wire<Series>,
}

/// The recorded series of one book, as terms.
pub ghost struct RecordedView {
    pub nav: Term,
    pub turnover: Term,
    pub gross: Term,
}

impl View for Recorded {
    type V = RecordedView;

    open spec fn view(&self) -> RecordedView {
        RecordedView { nav: self.nav@, turnover: self.turnover@, gross: self.gross@ }
    }
}

impl Recorded {
    /// Whether all the wires belong to the graph.
    pub open spec fn belongs(self, b: Builder) -> bool {
        b.has(self.nav) && b.has(self.turnover) && b.has(self.gross)
    }
}

/// A weights file, read between two instants.
pub open spec fn weights_file(
    path: Seq<char>,
    start: Option<Instant>,
    end: Option<Instant>,
) -> Term {
    Term {
        op: Op::Csv { start, end },
        data: PayloadView::Table {
            file: path,
            time: "date"@,
            axis: "symbol"@,
            columns: seq!["weight"@],
        },
        inputs: Seq::empty(),
    }
}

/// The clock of a submitted book: it pulses when any symbol has a row.
pub open spec fn submitted_clock(file: Term) -> Term {
    t1(Op::Any, port(0, file))
}

/// The weights of a submitted book: those of the date, zero elsewhere.
pub open spec fn submitted_weights(file: Term) -> Term {
    unary(
        Unary::FillMissing(Double { bits: 0 }),
        t3(Op::Collect, port(0, file), port(1, file), submitted_clock(file)),
    )
}

/// The label of book `i`: the benchmark's first, then the stems of the
/// weights files, whose paths are written in a style.
pub open spec fn book_label(style: Style, args: Args, i: int) -> Seq<char> {
    if i == 0 {
        "index_top"@ + decimal(args.benchmark_size as nat)
    } else {
        stem(file_name(style, args.weights@[i - 1]@)->0)
    }
}

/// A book: when it rebalances, and to which weights.
pub ghost struct BookView {
    pub clock: Term,
    pub weights: Term,
}

/// A submitted book, read between two instants.
pub open spec fn submitted(
    path: Seq<char>,
    start: Option<Instant>,
    end: Option<Instant>,
) -> BookView {
    BookView {
        clock: submitted_clock(weights_file(path, start, end)),
        weights: submitted_weights(weights_file(path, start, end)),
    }
}

/// The benchmark on its calendar.
pub open spec fn benchmark(args: Args, m: MarketView, instants: Seq<Instant>) -> BookView {
    BookView {
        clock: ticks(instants),
        weights: universe_of(ticks(instants), m.close, m.circulating, args.benchmark_size),
    }
}

/// What is traded of book `i`: of a submission, what lies in the scoring
/// window.
pub open spec fn traded_book(
    args: Args,
    m: MarketView,
    instants: Seq<Instant>,
    i: int,
) -> BookView {
    if i == 0 {
        benchmark(args, m, instants)
    } else {
        submitted(args.weights@[i - 1]@, Some(args.start), args.end)
    }
}

/// What is measured of book `i`: a submission is read from its beginning, so
/// that its turnover and its exposure are warm at the start of the window.
pub open spec fn measured_book(
    args: Args,
    m: MarketView,
    instants: Seq<Instant>,
    i: int,
) -> BookView {
    if i == 0 {
        benchmark(args, m, instants)
    } else {
        submitted(args.weights@[i - 1]@, None, args.end)
    }
}

/// What the books are traded against.
pub open spec fn market_venue(m: MarketView) -> Seq<Term> {
    venue_of(
        m.daily,
        quote_book(m.price_signals, m.close_carried),
        m.div_signals,
        m.share_divs,
        m.cash_divs,
    )
}

/// How any book is scored: by trading the one, and measuring the other.
pub open spec fn scored(
    args: Args,
    m: MarketView,
    traded: BookView,
    measured: BookView,
) -> RecordedView {
    let nav = net_value(
        Op::Fractional(args.trader()),
        market_venue(m),
        traded.clock,
        traded.weights,
    );
    RecordedView {
        nav: t2(Op::Record, m.daily, nav),
        turnover: t2(
            Op::Record,
            m.daily,
            t2(Op::Metric(Metric::Turnover), measured.clock, measured.weights),
        ),
        gross: t2(Op::Record, m.daily, t1(Op::SumFinite, unary(Unary::Abs, measured.weights))),
    }
}

/// The recorded series of book `i`.
pub open spec fn book_record(
    args: Args,
    m: MarketView,
    instants: Seq<Instant>,
    i: int,
) -> RecordedView {
    scored(args, m, traded_book(args, m, instants, i), measured_book(args, m, instants, i))
}

/// Whether weights file `i` is the first whose name gives no label.
pub open spec fn first_unlabelled(style: Style, weights: Seq<String>, i: int) -> bool {
    &&& 0 <= i < weights.len()
    &&& file_name(style, weights[i]@) is None
    &&& forall|k: int| 0 <= k < i ==> file_name(style, (#[trigger] weights[k])@) is Some
}

/// The message about a weights file whose name gives no label.
pub open spec fn no_label(path: Seq<char>) -> Seq<char> {
    path + ": cannot derive a portfolio label from the filename"@
}

/// Whether `r` is what wiring every book gives: the books by their labels, or
/// the message about the first weights file whose name gives none.
pub open spec fn wired(
    style: Style,
    args: Args,
    m: MarketView,
    instants: Seq<Instant>,
    b: Builder,
    r: Result<Vec<(String, Recorded)>, String>,
) -> bool {
    match r {
        Ok(books) => {
            &&& books@.len() == args.weights@.len() + 1
            &&& forall|i: int|
                0 <= i < args.weights@.len() ==> file_name(
                    style,
                    (#[trigger] args.weights@[i])@,
                ) is Some
            &&& forall|i: int|
                0 <= i < books@.len() ==> (#[trigger] books@[i]).0@ == book_label(style, args, i)
                    && books@[i].1.belongs(b) && books@[i].1@ == book_record(args, m, instants, i)
        },
        Err(message) => exists|i: int| #[trigger]
            first_unlabelled(style, args.weights@, i) && message@ == no_label(args.weights@[i]@),
    }
}

/// How the benchmark is scored rests on the scorer's settings alone: no
/// submission has a part in it.
pub proof fn the_benchmark_is_the_scorers(
    style: Style,
    a: Args,
    b: Args,
    m: MarketView,
    instants: Seq<Instant>,
)
    requires
        a.trader() == b.trader(),
        a.benchmark_size == b.benchmark_size,
    ensures
        book_record(a, m, instants, 0) == book_record(b, m, instants, 0),
        book_label(style, a, 0) == book_label(style, b, 0),
{
}

/// How a submitted book is scored rests on its own file and the scorer's
/// settings: it is the same whatever else is submitted, and wherever it
/// stands among the submissions.
pub proof fn a_book_is_scored_alone(
    style: Style,
    a: Args,
    b: Args,
    m: MarketView,
    instants: Seq<Instant>,
    i: int,
    j: int,
)
    requires
        a.trader() == b.trader(),
        a.start == b.start,
        a.end == b.end,
        1 <= i <= a.weights@.len(),
        1 <= j <= b.weights@.len(),
        a.weights@[i - 1]@ == b.weights@[j - 1]@,
    ensures
        book_record(a, m, instants, i) == book_record(b, m, instants, j),
        book_label(style, a, i) == book_label(style, b, j),
{
}

/// What is traded of a submission lies in the scoring window, and what is
/// measured of it starts with its first row: weights from before the window
/// are read, and never traded.
pub proof fn only_the_window_is_traded(
    args: Args,
    m: MarketView,
    instants: Seq<Instant>,
    i: int,
)
    requires
        1 <= i <= args.weights@.len(),
    ensures
        ({
            let record = book_record(args, m, instants, i);
            let path = args.weights@[i - 1]@;
            let window = submitted(path, Some(args.start), args.end);
            let whole = submitted(path, None, args.end);
            let trader = record.nav.inputs[1].inputs[0];
            let n = trader.inputs.len();
            &&& trader.op == Op::Fractional(args.trader())
            &&& trader.inputs[n - 2] == window.clock
            &&& trader.inputs[n - 1] == window.weights
            &&& record.turnover.inputs[1].inputs == seq![whole.clock, whole.weights]
            &&& record.gross.inputs[1].inputs[0].inputs == seq![whole.weights]
        }),
{
}

/// A book's clock and weights.
#[derive(Clone, Copy)]
struct Book {
    clock: Wire<Pulse>,
    weights: Wire<Vector>,
}

impl Book {
    spec fn is_of(self, b: Builder, v: BookView) -> bool {
        &&& b.has(self.clock)
        &&& b.has(self.weights)
        &&& self.clock@ == v.clock
        &&& self.weights@ == v.weights
    }
}

/// Reads a weights file: the clock and the weights of the book.
fn read_book(b: &mut Builder, path: &String, start: Option<Instant>, end: Option<Instant>) -> (r:
    Book)
    requires
        old(b).ordered(),
    ensures
        final(b).grown(*old(b)),
        r.is_of(*final(b), submitted(path@, start, end)),
{
    let columns = vec!["weight".to_string()];
    assert(texts(columns@) =~= seq!["weight"@]);
    let ghost none = Seq::<Term>::empty();
    let file: Wire<Bundle> = b.node(
        Op::Csv { start, end },
        Payload::Table {
            file: path.clone(),
            time: "date".to_string(),
            axis: "symbol".to_string(),
            columns,
        },
        Vec::new(),
        Ghost(none),
    );
    let read = outputs(b, file, 1);
    let rows = read.signals;
    let carried = read.values[0];
    let rebalance = b.any(rows);
    let today = b.collect(rows, carried, rebalance);
    let weights = b.unary(Unary::FillMissing(Double { bits: 0 }), today);
    Book { clock: rebalance, weights }
}

/// Follows the one book, measures the other, and records the readouts.
fn record_book(
    b: &mut Builder,
    args: &Args,
    venue: &Venue,
    traded: Book,
    measured: Book,
    Ghost(m): Ghost<MarketView>,
    Ghost(t): Ghost<BookView>,
    Ghost(s): Ghost<BookView>,
) -> (r: Recorded)
    requires
        old(b).ordered(),
        venue.belongs(*old(b)),
        venue@ == market_venue(m),
        venue.daily@ == m.daily,
        traded.is_of(*old(b), t),
        measured.is_of(*old(b), s),
    ensures
        final(b).grown(*old(b)),
        r.belongs(*final(b)),
        r@ == scored(*args, m, t, s),
{
    let daily = venue.daily;
    let nav = follow_with_fees(b, args.trader_params(), venue, traded.clock, traded.weights);
    let turnover = b.readout(Metric::Turnover, measured.clock, measured.weights);
    let sizes = b.unary(Unary::Abs, measured.weights);
    let gross = b.sum_finite(sizes);
    let nav = b.record(daily, nav);
    let turnover = b.record(daily, turnover);
    let gross = b.record(daily, gross);
    Recorded { nav, turnover, gross }
}

/// Wires everything that gets traded, scored identically: the benchmark on
/// its calendar, so that it heads the report, then one entry per submitted
/// book, whose path is written in a style. A weights file whose name gives no
/// label is refused.
pub fn build_books_in(
    style: Style,
    b: &mut Builder,
    args: &Args,
    m: &MarketData,
    instants: Vec<Instant>,
) -> (r: Result<Vec<(String, Recorded)>, String>)
    requires
        old(b).ordered(),
        m.belongs(*old(b)),
    ensures
        final(b).grown(*old(b)),
        wired(style, *args, m@, instants@, *final(b), r),
{
    let ghost ticked = instants@;
    let (flags, bids, asks) = build_quotes(b, m.price_signals, m.close_carried);
    let venue = Venue {
        daily: m.daily,
        flags,
        bids,
        asks,
        div_signals: m.div_signals,
        share_divs: m.share_divs,
        cash_divs: m.cash_divs,
    };
    assert(venue@ =~= market_venue(m@));
    let rebalance = b.ticks(instants);
    let weights = build_cap_weighted_universe(
        b,
        m.close,
        m.circulating,
        rebalance,
        args.benchmark_size,
    );
    let mut books: Vec<(String, Recorded)> = Vec::new();
    let size = decimal_text(args.benchmark_size);
    let ghost first = benchmark(*args, m@, ticked);
    let book = Book { clock: rebalance, weights };
    let index = record_book(b, args, &venue, book, book, Ghost(m@), Ghost(first), Ghost(first));
    books.push(("index_top".to_string().concat(size.as_str()), index));
    for k in 0..args.weights.len()
        invariant
            b.grown(*old(b)),
            venue.belongs(*b),
            venue@ == market_venue(m@),
            venue.daily@ == m@.daily,
            books@.len() == k + 1,
            forall|i: int| 0 <= i < k ==> file_name(style, (#[trigger] args.weights@[i])@) is Some,
            forall|i: int|
                0 <= i <= k ==> (#[trigger] books@[i]).0@ == book_label(style, *args, i)
                    && books@[i].1.belongs(*b) && books@[i].1@ == book_record(
                    *args,
                    m@,
                    ticked,
                    i,
                ),
    {
        let path = &args.weights[k];
        match file_stem(style, path.as_str()) {
            Some(label) => {
                let traded = read_book(b, path, Some(args.start), args.end);
                let measured = read_book(b, path, None, args.end);
                let ghost t = traded_book(*args, m@, ticked, k + 1);
                let ghost s = measured_book(*args, m@, ticked, k + 1);
                let recorded = record_book(
                    b,
                    args,
                    &venue,
                    traded,
                    measured,
                    Ghost(m@),
                    Ghost(t),
                    Ghost(s),
                );
                books.push((label, recorded));
            },
            None => {
                assert(first_unlabelled(style, args.weights@, k as int));
                return Err(
                    path.clone().concat(": cannot derive a portfolio label from the filename"),
                );
            },
        }
    }
    Ok(books)
}

/// Wires everything that gets traded, with the weights files' paths in the
/// style of the machine.
pub fn build_books(
    b: &mut Builder,
    args: &Args,
    m: &MarketData,
    instants: Vec<Instant>,
) -> (r: Result<Vec<(String, Recorded)>, String>)
    requires
        old(b).ordered(),
        m.belongs(*old(b)),
    ensures
        final(b).grown(*old(b)),
        exists|style: Style| #[trigger] wired(style, *args, m@, instants@, *final(b), r),
{
    build_books_in(machine_style(), b, args, m, instants)
}

/// The benchmark is weighed by close times circulating shares, among as many
/// of the greatest stocks as the scorer is told, at its own rebalances.
pub proof fn the_benchmark_weighs_caps(
    run: Run,
    args: Args,
    m: MarketView,
    instants: Seq<Instant>,
    lane: int,
    now: int,
)
    ensures
        benchmark(args, m, instants).clock == ticks(instants),
        value(run, benchmark(args, m, instants).weights, lane, now) == Some(
            cap_weight(
                circulating_cap(run, ticks(instants), m.close, m.circulating, now),
                args.benchmark_size as nat,
                run.lanes,
                lane,
            ),
        ),
        forall|i: int| #![trigger traded_book(args, m, instants, i)]
            i == 0 ==> traded_book(args, m, instants, i) == benchmark(args, m, instants)
                && measured_book(args, m, instants, i) == benchmark(args, m, instants),
{
    the_universe_weighs_circulating_caps(
        run,
        ticks(instants),
        m.close,
        m.circulating,
        args.benchmark_size,
        lane,
        now,
    );
}

/// A submitted book is a complete cross-section: what its file says of a date
/// is held, a stock that the date leaves out at zero. Its clock ticks when
/// any stock has a row.
pub proof fn a_book_is_complete(
    run: Run,
    path: Seq<char>,
    start: Option<Instant>,
    end: Option<Instant>,
    lane: int,
    now: int,
)
    ensures
        ({
            let book = submitted(path, start, end);
            let rows = book.weights.inputs[0];
            let file = book.clock.inputs[0].inputs[0];
            &&& book.clock.op == Op::Any
            &&& book.clock.inputs[0].op == Op::Port(0)
            &&& rows.op == Op::Collect
            &&& rows.inputs.len() == 3
            &&& rows.inputs[0] == book.clock.inputs[0]
            &&& rows.inputs[1].op == Op::Port(1)
            &&& rows.inputs[1].inputs == seq![file]
            &&& rows.inputs[2] == book.clock
            &&& file.op == (Op::Csv { start, end })
            &&& file.data == (PayloadView::Table {
                file: path,
                time: "date"@,
                axis: "symbol"@,
                columns: seq!["weight"@],
            })
            &&& known(run, book.weights, lane, now)
            &&& num(run, book.weights, lane, now) == match value(run, rows, lane, now) {
                Some(w) => w,
                None => 0real,
            }
        }),
{
    broadcast use group_values;

    let file = weights_file(path, start, end);
    let rows = t3(Op::Collect, port(0, file), port(1, file), submitted_clock(file));
    assert(submitted_weights(file).inputs[0] == rows);
    assert(cross(run, rows, now)(lane) == value(run, rows, lane, now));
    zero_is_nothing();
}

/// How a book is scored: its net asset value is that of the scorer's trader
/// against the quotes and dividends of the market, its turnover is of what is
/// measured, and its gross exposure is the sum of the sizes of its weights.
pub proof fn a_book_is_scored_by_its_weights(
    run: Run,
    args: Args,
    m: MarketView,
    traded: BookView,
    measured: BookView,
    lane: int,
    now: int,
)
    ensures
        ({
            let r = scored(args, m, traded, measured);
            let account = r.nav.inputs[1].inputs[0];
            let book = account.inputs[1].inputs[0];
            let turnover = r.turnover.inputs[1];
            let sizes = |l: int|
                match value(run, measured.weights, l, now) {
                    Some(w) => Some(absolute(w)),
                    None => None,
                };
            &&& r.nav.op == Op::Record && r.nav.inputs[0] == m.daily
            &&& r.nav.inputs[1].op == Op::Port(2)
            &&& account.op matches Op::Fractional(p) && p.delayed && p.initial_cash
                == args.initial_cash && p.fee_base_buy == args.fee_min && p.fee_base_sell
                == args.fee_min && p.fee_rate_buy == args.fee_rate_buy && p.fee_rate_sell
                == args.fee_rate_sell
            &&& account.inputs[0] == m.daily
            &&& book.op matches Op::Quotes { .. }
            &&& book.inputs == seq![m.price_signals, m.close_carried]
            &&& account.inputs[1].op == Op::Port(0)
            &&& account.inputs[2].op == Op::Port(1)
            &&& account.inputs[2].inputs == seq![book]
            &&& account.inputs[3].op == Op::Port(2)
            &&& account.inputs[3].inputs == seq![book]
            &&& account.inputs[4] == m.div_signals
            &&& account.inputs[5] == m.share_divs
            &&& account.inputs[6] == m.cash_divs
            &&& account.inputs[7] == traded.clock
            &&& account.inputs[8] == traded.weights
            &&& r.turnover.op == Op::Record && r.turnover.inputs[0] == m.daily
            &&& turnover.op == Op::Metric(Metric::Turnover)
            &&& turnover.inputs == seq![measured.clock, measured.weights]
            &&& r.gross.op == Op::Record && r.gross.inputs[0] == m.daily
            &&& value(run, r.gross, lane, now) == Some(total(sizes, run.lanes))
        }),
{
    broadcast use group_values;

    let book = quote_book(m.price_signals, m.close_carried);
    a_trader_reads_its_venue(
        Op::Fractional(args.trader()),
        m.daily,
        book,
        m.div_signals,
        m.share_divs,
        m.cash_divs,
        traded.clock,
        traded.weights,
    );
    let r = scored(args, m, traded, measured);
    assert(r.turnover.inputs[1].inputs =~= seq![measured.clock, measured.weights]);
    let sized = unary(Unary::Abs, measured.weights);
    let sum = t1(Op::SumFinite, sized);
    assert(sum.inputs[0] == sized);
    assert(value(run, r.gross, lane, now) == value(run, sum, lane, now));
    let sizes = |l: int|
        match value(run, measured.weights, l, now) {
            Some(w) => Some(absolute(w)),
            None => None,
        };
    assert forall|l: int| #[trigger] sizes(l) == cross(run, sized, now)(l) by {
        assert(cross(run, sized, now)(l) == value(run, sized, l, now));
        assert(cross(run, measured.weights, now)(l) == value(run, measured.weights, l, now));
    }
    assert(sizes =~= cross(run, sized, now));
}

} // verus!
