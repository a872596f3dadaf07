//! The cross-sectional market panel data.
//!
//! Every panel source emits row signals, one per stock, and value arrays, one
//! per column: a signal pulses on the timestamps its stock has a row, and the
//! value arrays are carried, so a cell with no row on a timestamp keeps its
//! last emitted value.
//!
//! The daily price fields are also wanted signaled-or-missing: that day's
//! value, or a missing one where the stock did not trade. The distinction
//! matters downstream: a suspended stock has no quote today, but may have a
//! last known price.
use vstd::prelude::*;

use crate::graph::{
    Builder, Bundle, Op, Payload, PayloadView, Pulse, Pulses, Rolling, Term, Unary, Vector, Window,
    Wire, plain, port, rolling, t1, t3, texts, unary,
};
use crate::sort::{orders_texts, picked, picked_texts_ascend, sorted_texts};
use crate::text::{before, chars_of, debug_form, debug_text, decimal, decimal_text, same_text};
use crate::time::Instant;
use crate::meaning::{Run, cross, group_values, known, num, value};

verus! {

/// The symbol table.
#[derive(Debug)]
pub struct SymbolList {
    /// Stock symbols, sorted: the cross-section axis.
    pub symbols: Vec<String>,
    /// Industry tag per symbol, parallel to `symbols` (empty when missing).
    pub industries: Vec<String>,
}

/// One batch of rows of the symbol table, by column; a column that the batch
/// does not have is `None`.
#[derive(Debug)]
pub struct SymbolBatch {
    pub symbols: Option<Vec<String>>,
    pub industries: Option<Vec<String>>,
}

/// The message about a column that a file does not have.
pub open spec fn missing_column(path: Seq<char>, name: Seq<char>) -> Seq<char> {
    path + ": missing column "@ + debug_form(name)
}

fn missing_column_text(path: &str, name: &str) -> (r: String)
    ensures
        r@ == missing_column(path@, name@),
{
    path.to_string().concat(": missing column ").concat(debug_text(name).as_str())
}

/// The entries of a column over the first `n` batches, one after the other.
pub open spec fn joined(columns: Seq<Option<Vec<String>>>, n: int) -> Seq<Seq<char>>
    decreases n,
{
    if n <= 0 {
        seq![]
    } else {
        joined(columns, n - 1) + texts(columns[n - 1]->0@)
    }
}

/// The symbol columns of the batches.
pub open spec fn symbol_columns(batches: Seq<SymbolBatch>) -> Seq<Option<Vec<String>>> {
    batches.map_values(|b: SymbolBatch| b.symbols)
}

/// The industry columns of the batches.
pub open spec fn industry_columns(batches: Seq<SymbolBatch>) -> Seq<Option<Vec<String>>> {
    batches.map_values(|b: SymbolBatch| b.industries)
}

/// What is wrong with a batch.
#[derive(Clone, Copy, Debug, PartialEq, Eq, Structural)]
pub enum BatchFault {
    NoSymbols,
    NoIndustries,
    /// The columns differ in length.
    Uneven,
}

impl SymbolBatch {
    /// What is wrong with the batch, if anything is.
    pub open spec fn fault(self) -> Option<BatchFault> {
        if self.symbols is None {
            Some(BatchFault::NoSymbols)
        } else if self.industries is None {
            Some(BatchFault::NoIndustries)
        } else if self.symbols->0@.len() != self.industries->0@.len() {
            Some(BatchFault::Uneven)
        } else {
            None
        }
    }
}

/// The message about what is wrong with a batch.
pub open spec fn fault_message(path: Seq<char>, fault: BatchFault) -> Seq<char> {
    match fault {
        BatchFault::NoSymbols => missing_column(path, "symbol"@),
        BatchFault::NoIndustries => missing_column(path, "industry"@),
        BatchFault::Uneven => path + ": columns of different lengths"@,
    }
}

/// Whether nothing is wrong with the first `n` batches.
pub open spec fn complete(batches: Seq<SymbolBatch>, n: int) -> bool {
    forall|i: int| 0 <= i < n ==> (#[trigger] batches[i]).fault() is None
}

/// Whether `list` holds the symbols of `names` in the order of texts, equal
/// ones in file order.
pub open spec fn sorted_list(names: Seq<Seq<char>>, list: Seq<Seq<char>>) -> bool {
    exists|order: Seq<usize>| #[trigger]
        orders_texts(names, names.len() as int, order) && list == picked(names, order)
}

/// Whether `symbols` and `tags` hold the rows of a table, a name and a tag
/// each, in the order of the names, equal ones in file order.
pub open spec fn sorted_rows(
    names: Seq<Seq<char>>,
    marks: Seq<Seq<char>>,
    symbols: Seq<Seq<char>>,
    tags: Seq<Seq<char>>,
) -> bool {
    exists|order: Seq<usize>| #[trigger]
        orders_texts(names, names.len() as int, order) && symbols == picked(names, order) && tags
            == picked(marks, order)
}

/// Whether texts ascend.
pub open spec fn ascends(list: Seq<Seq<char>>) -> bool {
    forall|i: int, j: int|
        #![trigger list[i], list[j]]
        0 <= i < j < list.len() ==> !before(list[j], list[i])
}

/// The texts at the places that `order` lists.
fn pick(names: &Vec<String>, order: &Vec<usize>) -> (r: Vec<String>)
    requires
        forall|i: int| 0 <= i < order@.len() ==> (#[trigger] order@[i]) < names@.len(),
    ensures
        texts(r@) == picked(texts(names@), order@),
{
    let mut out: Vec<String> = Vec::new();
    for i in 0..order.len()
        invariant
            forall|i: int| 0 <= i < order@.len() ==> (#[trigger] order@[i]) < names@.len(),
            texts(out@) == picked(texts(names@), order@.take(i as int)),
    {
        let ghost so_far = texts(out@);
        let place: usize = order[i];
        out.push(names[place].clone());
        assert(texts(out@) =~= so_far.push(texts(names@)[place as int]));
        assert(texts(out@) =~= picked(texts(names@), order@.take(i + 1)));
    }
    assert(order@.take(order@.len() as int) =~= order@);
    out
}

proof fn an_order_ascends(names: Seq<Seq<char>>, order: Seq<usize>)
    requires
        orders_texts(names, names.len() as int, order),
    ensures
        ascends(picked(names, order)),
{
    let list = picked(names, order);
    assert forall|i: int, j: int|
        #![trigger list[i], list[j]]
        0 <= i < j < list.len() implies !before(list[j], list[i]) by {
        picked_texts_ascend(names, order, i, j);
    }
}

fn extend(list: &mut Vec<String>, more: &Vec<String>)
    ensures
        texts(final(list)@) == texts(old(list)@) + texts(more@),
{
    for k in 0..more.len()
        invariant
            texts(list@) == texts(old(list)@) + texts(more@).take(k as int),
    {
        let ghost before = texts(list@);
        list.push(more[k].clone());
        assert(texts(list@) =~= before.push(more@[k as int]@));
        assert(texts(list@) =~= texts(old(list)@) + texts(more@).take(k + 1));
    }
    assert(texts(more@).take(more@.len() as int) =~= texts(more@));
    assert(texts(old(list)@) + texts(more@).take(0) =~= texts(old(list)@));
}

/// The symbol list (symbols and industry tags) of the batches of
/// `symbol_list.parquet`, sorted by symbol with the tags alongside, or a
/// message about the first batch that something is wrong with.
pub fn read_symbol_list(path: &str, batches: &Vec<SymbolBatch>) -> (r: Result<SymbolList, String>)
    ensures
        match r {
            Ok(list) => {
                &&& complete(batches@, batches@.len() as int)
                &&& sorted_rows(
                    joined(symbol_columns(batches@), batches@.len() as int),
                    joined(industry_columns(batches@), batches@.len() as int),
                    texts(list.symbols@),
                    texts(list.industries@),
                )
                &&& ascends(texts(list.symbols@))
                &&& list.industries@.len() == list.symbols@.len()
            },
            Err(message) => exists|i: int| #[trigger]
                first_fault(batches@, i) && message@ == fault_message(
                    path@,
                    batches@[i].fault()->0,
                ),
        },
{
    let mut symbols: Vec<String> = Vec::new();
    let mut industries: Vec<String> = Vec::new();
    assert(texts(symbols@) =~= seq![]);
    assert(texts(industries@) =~= seq![]);
    for i in 0..batches.len()
        invariant
            complete(batches@, i as int),
            texts(symbols@) == joined(symbol_columns(batches@), i as int),
            texts(industries@) == joined(industry_columns(batches@), i as int),
            symbols@.len() == industries@.len(),
    {
        let ghost (named, marked) = (texts(symbols@), texts(industries@));
        let batch = &batches[i];
        let (names, tags) = match (&batch.symbols, &batch.industries) {
            (Some(names), Some(tags)) => (names, tags),
            (None, _) => {
                assert(first_fault(batches@, i as int));
                return Err(missing_column_text(path, "symbol"));
            },
            (_, None) => {
                assert(first_fault(batches@, i as int));
                return Err(missing_column_text(path, "industry"));
            },
        };
        if names.len() != tags.len() {
            assert(first_fault(batches@, i as int));
            return Err(path.to_string().concat(": columns of different lengths"));
        }
        extend(&mut symbols, names);
        extend(&mut industries, tags);
        assert(symbols@.len() == texts(symbols@).len() == named.len() + names@.len());
        assert(industries@.len() == texts(industries@).len() == marked.len() + tags@.len());
        assert(named.len() == marked.len());
    }
    let order = sorted_texts(&symbols);
    let sorted = SymbolList {
        symbols: pick(&symbols, &order),
        industries: pick(&industries, &order),
    };
    proof {
        an_order_ascends(texts(symbols@), order@);
        assert(texts(sorted.symbols@).len() == texts(sorted.industries@).len());
    }
    Ok(sorted)
}

/// Whether batch `i` is the first that something is wrong with.
pub open spec fn first_fault(batches: Seq<SymbolBatch>, i: int) -> bool {
    &&& 0 <= i < batches.len()
    &&& complete(batches, i)
    &&& batches[i].fault() is Some
}

/// The symbols of the batches of `symbol_list.parquet`, sorted, or a message
/// that names the missing column.
pub fn read_symbols(path: &str, batches: &Vec<Option<Vec<String>>>) -> (r: Result<
    Vec<String>,
    String,
>)
    ensures
        match r {
            Ok(list) => {
                &&& forall|i: int| 0 <= i < batches@.len() ==> #[trigger] batches@[i] is Some
                &&& sorted_list(joined(batches@, batches@.len() as int), texts(list@))
                &&& ascends(texts(list@))
            },
            Err(message) => {
                &&& exists|i: int| 0 <= i < batches@.len() && #[trigger] batches@[i] is None
                &&& message@ == missing_column(path@, "symbol"@)
            },
        },
{
    let mut symbols: Vec<String> = Vec::new();
    assert(texts(symbols@) =~= seq![]);
    for i in 0..batches.len()
        invariant
            forall|k: int| 0 <= k < i ==> #[trigger] batches@[k] is Some,
            texts(symbols@) == joined(batches@, i as int),
    {
        match &batches[i] {
            Some(column) => extend(&mut symbols, column),
            None => {
                assert(batches@[i as int] is None);
                return Err(missing_column_text(path, "symbol"));
            },
        }
    }
    let order = sorted_texts(&symbols);
    proof {
        an_order_ascends(texts(symbols@), order@);
    }
    Ok(pick(&symbols, &order))
}

/// The type of a column.
#[derive(Clone, Copy, Debug, PartialEq, Eq, Structural)]
pub enum ColumnType {
    Boolean,
    UInt8,
    UInt16,
    UInt32,
    UInt64,
    Int8,
    Int16,
    Int32,
    Int64,
    Float16,
    Float32,
    Float64,
    Decimal32,
    Decimal64,
    Decimal128,
    Decimal256,
    /// Text, times, lists and the like.
    Other,
}

/// The names of the first `n` columns that hold values: the numeric and the
/// boolean ones, in file order.
pub open spec fn value_columns(columns: Seq<(String, ColumnType)>, n: int) -> Seq<Seq<char>>
    decreases n,
{
    if n <= 0 {
        seq![]
    } else if columns[n - 1].1 is Other {
        value_columns(columns, n - 1)
    } else {
        value_columns(columns, n - 1).push(columns[n - 1].0@)
    }
}

/// Lists the value columns of a panel file, in file order: every numeric or
/// boolean column of the schema.
pub fn read_value_columns(columns: &Vec<(String, ColumnType)>) -> (r: Vec<String>)
    ensures
        texts(r@) == value_columns(columns@, columns@.len() as int),
{
    let mut names: Vec<String> = Vec::new();
    assert(texts(names@) =~= seq![]);
    for i in 0..columns.len()
        invariant
            texts(names@) == value_columns(columns@, i as int),
    {
        if columns[i].1 != ColumnType::Other {
            let ghost before = texts(names@);
            names.push(columns[i].0.clone());
            assert(texts(names@) =~= before.push(columns@[i as int].0@));
        }
    }
    names
}

/// The panel files read, as `(file stem, field prefix)` pairs.
pub const PANELS: [(&'static str, &'static str); 6] = [
    ("daily_prices", "prices"),
    ("dividends", "dividends"),
    ("equity_structures", "shares"),
    ("balance_sheets", "balance_sheet"),
    ("income_statements", "income_statement"),
    ("cash_flow_statements", "cash_flow_statement"),
];

/// The file of a panel.
pub open spec fn panel_file(dir: Seq<char>, kind: Seq<char>) -> Seq<char> {
    dir + "/"@ + kind + ".parquet"@
}

/// The path of a panel's file.
pub fn panel_path(dir: &str, kind: &str) -> (r: String)
    ensures
        r@ == panel_file(dir@, kind@),
{
    dir.to_string().concat("/").concat(kind).concat(".parquet")
}

/// Whether a column's name already stands under a prefix: it is the prefix,
/// or the prefix and a dot come first.
pub open spec fn stands_under(name: Seq<char>, prefix: Seq<char>) -> bool {
    &&& name.len() >= prefix.len()
    &&& name.take(prefix.len() as int) == prefix
    &&& name.len() == prefix.len() || name[prefix.len() as int] == '.'
}

/// The key of a column under its panel's prefix: a name that already stands
/// under the prefix keys as it is, any other gets it prepended.
pub open spec fn field_key(prefix: Seq<char>, name: Seq<char>) -> Seq<char> {
    if stands_under(name, prefix) {
        name
    } else {
        prefix + "."@ + name
    }
}

/// The key of a column under its panel's prefix.
pub fn key_of(prefix: &str, name: &str) -> (r: String)
    ensures
        r@ == field_key(prefix@, name@),
{
    let p = chars_of(prefix);
    let s = chars_of(name);
    let mut k: usize = 0;
    while k < p.len() && k < s.len() && p[k] == s[k]
        invariant
            p@ == prefix@,
            s@ == name@,
            k <= p@.len(),
            k <= s@.len(),
            forall|i: int| 0 <= i < k ==> #[trigger] p@[i] == s@[i],
        decreases p@.len() - k,
    {
        k += 1;
    }
    if k == p.len() && (s.len() == k || s[k] == '.') {
        assert(name@.take(k as int) =~= prefix@);
        name.to_string()
    } else {
        proof {
            if stands_under(name@, prefix@) {
                assert(name@.take(prefix@.len() as int)[k as int] == prefix@[k as int]);
            }
        }
        prefix.to_string().concat(".").concat(name)
    }
}

/// A column of any panel has one key, and two columns of one panel have the
/// same key only if they have the same name, or one is the other with the
/// prefix in front.
pub proof fn keys_tell_columns_apart(prefix: Seq<char>, a: Seq<char>, b: Seq<char>)
    requires
        field_key(prefix, a) == field_key(prefix, b),
    ensures
        a == b || a == prefix + "."@ + b || b == prefix + "."@ + a,
{
    if !stands_under(a, prefix) && !stands_under(b, prefix) {
        let n = (prefix + "."@).len() as int;
        assert((prefix + "."@ + a).skip(n) =~= a);
        assert((prefix + "."@ + b).skip(n) =~= b);
    }
}

/// A panel of a Parquet file between two instants.
pub open spec fn parquet(
    file: Seq<char>,
    columns: Seq<Seq<char>>,
    start: Option<Instant>,
    end: Option<Instant>,
    prefill: bool,
) -> Term {
    Term {
        op: Op::Parquet { start, end, prefill },
        data: PayloadView::Table { file, time: "date"@, axis: "symbol"@, columns },
        inputs: Seq::empty(),
    }
}

/// The signals and the columns of a panel, with the columns as wires.
pub struct PanelWires {
    pub signals: Wire<Pulses>,
    pub values: Vec<Wire<Vector>>,
}

impl PanelWires {
    /// Whether the wires carry the panel `t`, of so many columns, in `b`.
    pub open spec fn carries(self, b: Builder, t: Term, columns: int) -> bool {
        &&& b.has(self.signals)
        &&& self.signals@ == port(0, t)
        &&& self.values@.len() == columns
        &&& forall|i: int|
            0 <= i < columns ==> b.has(#[trigger] self.values@[i]) && self.values@[i]@ == port(
                1 + i,
                t,
            )
    }
}

pub(crate) fn clone_texts(v: &Vec<String>) -> (r: Vec<String>)
    ensures
        texts(r@) == texts(v@),
{
    let mut out: Vec<String> = Vec::new();
    extend(&mut out, v);
    assert(texts(Seq::<String>::empty()) + texts(v@) =~= texts(v@));
    out
}

/// The outputs of a panel source: its row signals and its columns.
pub(crate) fn outputs(b: &mut Builder, panel: Wire<Bundle>, columns: usize) -> (r: PanelWires)
    requires
        old(b).ordered(),
        old(b).has(panel),
        columns < usize::MAX,
    ensures
        final(b).grown(*old(b)),
        r.carries(*final(b), panel@, columns as int),
{
    let signals = b.output(0, panel);
    let mut values: Vec<Wire<Vector>> = Vec::new();
    for i in 0..columns
        invariant
            columns < usize::MAX,
            b.grown(*old(b)),
            b.has(panel),
            b.has(signals),
            values@.len() == i,
            forall|k: int|
                0 <= k < i ==> b.has(#[trigger] values@[k]) && values@[k]@ == port(
                    1 + k,
                    panel@,
                ),
    {
        let value = b.output(1 + i, panel);
        values.push(value);
    }
    PanelWires { signals, values }
}

/// Adds a Parquet panel source, on the `date` column, over the symbols.
pub fn panel(
    b: &mut Builder,
    dir: &str,
    kind: &str,
    columns: &Vec<String>,
    start: Option<Instant>,
    end: Option<Instant>,
    prefill: bool,
) -> (r: PanelWires)
    requires
        old(b).ordered(),
        columns@.len() < usize::MAX,
    ensures
        final(b).grown(*old(b)),
        r.carries(
            *final(b),
            parquet(panel_file(dir@, kind@), texts(columns@), start, end, prefill),
            columns@.len() as int,
        ),
{
    let ghost none = Seq::<Term>::empty();
    let source: Wire<Bundle> = b.node(
        Op::Parquet { start, end, prefill },
        Payload::Table {
            file: panel_path(dir, kind),
            time: "date".to_string(),
            axis: "symbol".to_string(),
            columns: clone_texts(columns),
        },
        Vec::new(),
        Ghost(none),
    );
    outputs(b, source, columns.len())
}

/// The term of a name in a list of named terms: the last entry of that name.
pub open spec fn lookup(entries: Seq<(Seq<char>, Term)>, name: Seq<char>) -> Option<Term>
    decreases entries.len(),
{
    if entries.len() == 0 {
        None
    } else if entries.last().0 == name {
        Some(entries.last().1)
    } else {
        lookup(entries.drop_last(), name)
    }
}

/// A list of named wires, by its terms.
pub open spec fn named<K>(v: Seq<(String, Wire<K>)>) -> Seq<(Seq<char>, Term)> {
    v.map_values(|e: (String, Wire<K>)| (e.0@, e.1@))
}

/// Whether all the wires of a list belong to the graph.
pub open spec fn all_in<K>(b: Builder, v: Seq<(String, Wire<K>)>) -> bool {
    forall|i: int| 0 <= i < v.len() ==> b.has((#[trigger] v[i]).1)
}

/// The wire of a name in a list of named wires.
pub(crate) fn find<K>(v: &Vec<(String, Wire<K>)>, name: &str) -> (r: Option<Wire<K>>)
    ensures
        match r {
            Some(w) => {
                &&& lookup(named(v@), name@) == Some(w@)
                &&& forall|b: Builder| #[trigger] all_in(b, v@) ==> b.has(w)
            },
            None => lookup(named(v@), name@) is None,
        },
{
    let mut i: usize = v.len();
    assert(named(v@).take(v@.len() as int) =~= named(v@));
    while i > 0
        invariant
            i <= v@.len(),
            lookup(named(v@).take(i as int), name@) == lookup(named(v@), name@),
        decreases i,
    {
        let ghost here = named(v@).take(i as int);
        i -= 1;
        assert(here.last() == (v@[i as int].0@, v@[i as int].1@));
        assert(here.drop_last() =~= named(v@).take(i as int));
        if same_text(v[i].0.as_str(), name) {
            return Some(v[i].1);
        }
    }
    assert(named(v@).take(0) =~= seq![]);
    None
}

/// What a [`MarketData`] carries, as terms.
pub ghost struct MarketView {
    pub daily: Term,
    pub price_signals: Term,
    pub div_signals: Term,
    pub equity_signals: Term,
    pub balance_report_signals: Term,
    pub income_report_signals: Term,
    pub cf_report_signals: Term,
    pub row_signals: Seq<(Seq<char>, Term)>,
    pub fields: Seq<(Seq<char>, Term)>,
    pub close: Term,
    pub open: Term,
    pub high: Term,
    pub low: Term,
    pub volume: Term,
    pub amount: Term,
    pub adj_multipliers: Term,
    pub adj_close: Term,
    pub log_adj: Term,
    pub log_return: Term,
    pub n: usize,
}

impl MarketView {
    /// Whether there is a field of that name.
    pub open spec fn has_field(self, name: Seq<char>) -> bool {
        lookup(self.fields, name) is Some
    }

    /// The field of that name.
    pub open spec fn field(self, name: Seq<char>) -> Term {
        lookup(self.fields, name)->0
    }

    /// Whether there is a field of each of the names.
    pub open spec fn has_all(self, names: Seq<&'static str>) -> bool {
        forall|i: int| 0 <= i < names.len() ==> self.has_field((#[trigger] names[i])@)
    }
}

/// Cross-sectional market panel data, wired by [`build_market_data`].
///
/// `fields` holds every carried column of every panel file;
/// [`field`](Self::field) looks one up by name. The daily price fields are
/// also there signaled-or-missing, along with the derived adjusted-close
/// returns.
pub struct MarketData {
    /// One pulse per trading day (when any stock has a row).
    pub daily: Wire<Pulse>,
    /// Per-stock signals: element `i` pulses on stock `i`'s trading days.
    pub price_signals: Wire<Pulses>,
    /// Per-stock dividend-event signals.
    pub div_signals: Wire<Pulses>,
    /// Per-stock equity structure change signals.
    pub equity_signals: Wire<Pulses>,
    /// Per-stock balance sheet report signals.
    pub balance_report_signals: Wire<Pulses>,
    /// Per-stock income statement report signals.
    pub income_report_signals: Wire<Pulses>,
    /// Per-stock cash flow statement report signals.
    pub cf_report_signals: Wire<Pulses>,
    /// Per-stock row signals of every panel, by file stem.
    pub row_signals: Vec<(String, Wire<Pulses>)>,
    /// Every value column of every panel file, carried, by field key.
    pub fields: Vec<(String, Wire<Vector>)>,
    pub close: Wire<Vector>,
    pub open: Wire<Vector>,
    pub high: Wire<Vector>,
    pub low: Wire<Vector>,
    pub volume: Wire<Vector>,
    pub amount: Wire<Vector>,
    /// Cumulative forward-adjustment multipliers (carried, start at one):
    /// adjusted price is raw price times multiplier, adjusted volume divides.
    pub adj_multipliers: Wire<Vector>,
    /// Forward-adjusted close.
    pub adj_close: Wire<Vector>,
    /// Log forward-adjusted close, the source of the log returns.
    pub log_adj: Wire<Vector>,
    /// Daily log return of the adjusted close, missing around non-trading
    /// days.
    pub log_return: Wire<Vector>,
    /// Number of symbols on the axis.
    pub n: usize,
}

impl View for MarketData {
    type V = MarketView;

    open spec fn view(&self) -> MarketView {
        MarketView {
            daily: self.daily@,
            price_signals: self.price_signals@,
            div_signals: self.div_signals@,
            equity_signals: self.equity_signals@,
            balance_report_signals: self.balance_report_signals@,
            income_report_signals: self.income_report_signals@,
            cf_report_signals: self.cf_report_signals@,
            row_signals: named(self.row_signals@),
            fields: named(self.fields@),
            close: self.close@,
            open: self.open@,
            high: self.high@,
            low: self.low@,
            volume: self.volume@,
            amount: self.amount@,
            adj_multipliers: self.adj_multipliers@,
            adj_close: self.adj_close@,
            log_adj: self.log_adj@,
            log_return: self.log_return@,
            n: self.n,
        }
    }
}

/// The message about a field that was not loaded.
pub open spec fn no_such_field(name: Seq<char>, loaded: nat) -> Seq<char> {
    "no field "@ + debug_form(name) + " among the "@ + decimal(loaded) + " loaded"@
}

impl MarketData {
    /// Whether all the wires belong to the graph.
    pub open spec fn belongs(self, b: Builder) -> bool {
        &&& b.has(self.daily)
        &&& b.has(self.price_signals)
        &&& b.has(self.div_signals)
        &&& b.has(self.equity_signals)
        &&& b.has(self.balance_report_signals)
        &&& b.has(self.income_report_signals)
        &&& b.has(self.cf_report_signals)
        &&& all_in(b, self.row_signals@)
        &&& all_in(b, self.fields@)
        &&& b.has(self.close)
        &&& b.has(self.open)
        &&& b.has(self.high)
        &&& b.has(self.low)
        &&& b.has(self.volume)
        &&& b.has(self.amount)
        &&& b.has(self.adj_multipliers)
        &&& b.has(self.adj_close)
        &&& b.has(self.log_adj)
        &&& b.has(self.log_return)
    }

    /// The carried column named `name`.
    pub fn field(&self, name: &str) -> (r: Wire<Vector>)
        requires
            self@.has_field(name@),
        ensures
            r@ == self@.field(name@),
            forall|b: Builder| #[trigger] self.belongs(b) ==> b.has(r),
    {
        let found = find(&self.fields, name);
        assert forall|b: Builder| #[trigger] self.belongs(b) implies b.has(found->0) by {
            assert(all_in(b, self.fields@));
        }
        found.unwrap()
    }

    /// The first of `names` that no field has, with the message about it.
    pub fn absent(&self, names: &[&'static str]) -> (r: Option<String>)
        ensures
            match r {
                Some(message) => exists|i: int| #[trigger]
                    first_absent(self@, names@, i) && message@ == no_such_field(
                        names@[i]@,
                        self@.fields.len(),
                    ),
                None => self@.has_all(names@),
            },
    {
        for i in 0..names.len()
            invariant
                forall|k: int| 0 <= k < i ==> self@.has_field((#[trigger] names@[k])@),
        {
            if find(&self.fields, names[i]).is_none() {
                assert(first_absent(self@, names@, i as int));
                let count = decimal_text(self.fields.len());
                return Some(
                    "no field ".to_string().concat(debug_text(names[i]).as_str()).concat(
                        " among the ",
                    ).concat(count.as_str()).concat(" loaded"),
                );
            }
        }
        None
    }
}

/// Whether name `i` is the first that no field has.
pub open spec fn first_absent(m: MarketView, names: Seq<&'static str>, i: int) -> bool {
    &&& 0 <= i < names.len()
    &&& !m.has_field(names[i]@)
    &&& forall|k: int| 0 <= k < i ==> m.has_field((#[trigger] names[k])@)
}

/// Where market data is read from: a directory, a span of time, and the value
/// columns of each of the [`PANELS`].
pub ghost struct Source {
    pub dir: Seq<char>,
    pub start: Option<Instant>,
    pub end: Option<Instant>,
    pub columns: Seq<Seq<Seq<char>>>,
}

impl Source {
    /// Panel `p`.
    pub open spec fn panel(self, p: int) -> Term {
        parquet(
            panel_file(self.dir, PANELS@[p].0@),
            self.columns[p],
            self.start,
            self.end,
            false,
        )
    }

    /// The fields with the first `c` columns of panel `p` added, or `None` if
    /// a key comes up twice.
    pub open spec fn keyed(self, fields: Seq<(Seq<char>, Term)>, p: int, c: int) -> Option<
        Seq<(Seq<char>, Term)>,
    >
        decreases c,
    {
        if c <= 0 {
            Some(fields)
        } else {
            match self.keyed(fields, p, c - 1) {
                None => None,
                Some(before) => {
                    let key = field_key(PANELS@[p].1@, self.columns[p][c - 1]);
                    if lookup(before, key) is Some {
                        None
                    } else {
                        Some(before.push((key, port(c, self.panel(p)))))
                    }
                },
            }
        }
    }

    /// The fields of the first `p` panels, or `None` if a key comes up twice.
    pub open spec fn loaded(self, p: int) -> Option<Seq<(Seq<char>, Term)>>
        decreases p,
    {
        if p <= 0 {
            Some(seq![])
        } else {
            match self.loaded(p - 1) {
                None => None,
                Some(before) => self.keyed(before, p - 1, self.columns[p - 1].len() as int),
            }
        }
    }

    /// The row signals of the first `p` panels.
    pub open spec fn signals(self, p: int) -> Seq<(Seq<char>, Term)> {
        Seq::new(p as nat, |i: int| (PANELS@[i].0@, port(0, self.panel(i))))
    }
}

/// The fields that [`build_market_data`] itself reads.
pub const PRICE_FIELDS: [&'static str; 8] = [
    "prices.close",
    "prices.open",
    "prices.high",
    "prices.low",
    "prices.volume",
    "prices.amount",
    "dividends.share",
    "dividends.cash",
];

/// Today's value of a carried field, missing where the stock did not trade.
pub open spec fn todays(signals: Term, carried: Term, daily: Term) -> Term {
    t3(Op::Collect, signals, carried, daily)
}

/// The market data over loaded fields.
pub open spec fn market(source: Source, fields: Seq<(Seq<char>, Term)>, n: usize) -> MarketView {
    let price_signals = port(0, source.panel(0));
    let div_signals = port(0, source.panel(1));
    let daily = t1(Op::Any, price_signals);
    let field = |name: Seq<char>| lookup(fields, name)->0;
    let close = todays(price_signals, field("prices.close"@), daily);
    let adjusted = plain(
        Op::ForwardAdjust,
        seq![
            price_signals,
            close,
            div_signals,
            field("dividends.share"@),
            field("dividends.cash"@),
        ],
    );
    let adj_close = todays(price_signals, port(1, adjusted), daily);
    let log_adj = unary(Unary::Ln, adj_close);
    MarketView {
        daily,
        price_signals,
        div_signals,
        equity_signals: port(0, source.panel(2)),
        balance_report_signals: port(0, source.panel(3)),
        income_report_signals: port(0, source.panel(4)),
        cf_report_signals: port(0, source.panel(5)),
        row_signals: source.signals(6),
        fields,
        close,
        open: todays(price_signals, field("prices.open"@), daily),
        high: todays(price_signals, field("prices.high"@), daily),
        low: todays(price_signals, field("prices.low"@), daily),
        volume: todays(price_signals, field("prices.volume"@), daily),
        amount: todays(price_signals, field("prices.amount"@), daily),
        adj_multipliers: port(0, adjusted),
        adj_close,
        log_adj,
        log_return: rolling(Rolling::Diff, Window::Count(1), daily, log_adj),
        n,
    }
}

/// Why market data cannot be wired.
#[derive(Debug)]
pub enum DataError {
    /// Two columns have the same field key; the second stands in this panel.
    DuplicateField { panel: usize },
    /// No panel has this field.
    NoField { index: usize },
}

impl DataError {
    /// The message about the error.
    pub open spec fn message(self, dir: Seq<char>) -> Seq<char> {
        match self {
            DataError::DuplicateField { panel } => panel_file(dir, PANELS@[panel as int].0@)
                + ": duplicate field key"@,
            DataError::NoField { index } => dir + ": no field "@ + debug_form(
                PRICE_FIELDS@[index as int]@,
            ) + " in the Parquet panels"@,
        }
    }

    /// The message about the error.
    pub fn text(&self, dir: &str) -> (r: String)
        requires
            match self {
                DataError::DuplicateField { panel } => *panel < PANELS@.len(),
                DataError::NoField { index } => *index < PRICE_FIELDS@.len(),
            },
        ensures
            r@ == self.message(dir@),
    {
        match self {
            DataError::DuplicateField { panel } => panel_path(dir, PANELS[*panel].0).concat(
                ": duplicate field key",
            ),
            DataError::NoField { index } => dir.to_string().concat(": no field ").concat(
                debug_text(PRICE_FIELDS[*index]).as_str(),
            ).concat(" in the Parquet panels"),
        }
    }
}

/// Whether `e` is why the market data of `source` cannot be wired: the first
/// panel in which a key comes up a second time or, when none does, the first
/// field that is missing.
pub open spec fn refuses(source: Source, e: DataError) -> bool {
    match e {
        DataError::DuplicateField { panel } => {
            &&& panel < PANELS@.len()
            &&& source.loaded(panel as int) is Some
            &&& source.loaded(panel + 1) is None
        },
        DataError::NoField { index } => {
            &&& source.loaded(6) matches Some(fields)
            &&& index < PRICE_FIELDS@.len()
            &&& lookup(fields, PRICE_FIELDS@[index as int]@) is None
            &&& forall|i: int|
                0 <= i < index ==> lookup(fields, (#[trigger] PRICE_FIELDS@[i])@) is Some
        },
    }
}

/// The columns of each panel, as characters.
pub open spec fn column_texts(columns: Seq<Vec<String>>) -> Seq<Seq<Seq<char>>> {
    columns.map_values(|v: Vec<String>| texts(v@))
}

proof fn a_clash_stays(source: Source, fields: Seq<(Seq<char>, Term)>, p: int, c: int, d: int)
    requires
        source.keyed(fields, p, c) is None,
        c <= d,
    ensures
        source.keyed(fields, p, d) is None,
    decreases d - c,
{
    if c < d {
        a_clash_stays(source, fields, p, c, d - 1);
    }
}

proof fn a_failed_load_stays(source: Source, p: int, q: int)
    requires
        source.loaded(p) is None,
        p <= q,
    ensures
        source.loaded(q) is None,
    decreases q - p,
{
    if p < q {
        a_failed_load_stays(source, p, q - 1);
    }
}

/// Market data is wired or refused for one reason, never both.
pub proof fn a_refusal_has_one_reason(source: Source, a: DataError, b: DataError)
    requires
        refuses(source, a),
        refuses(source, b),
    ensures
        a == b,
{
    match (a, b) {
        (DataError::DuplicateField { panel: p }, DataError::DuplicateField { panel: q }) => {
            if p < q {
                a_failed_load_stays(source, p + 1, q as int);
            } else if q < p {
                a_failed_load_stays(source, q + 1, p as int);
            }
        },
        (DataError::NoField { index: i }, DataError::NoField { index: j }) => {
            assert(PRICE_FIELDS@[i as int]@ == PRICE_FIELDS@[i as int]@);
            assert(PRICE_FIELDS@[j as int]@ == PRICE_FIELDS@[j as int]@);
        },
        (DataError::DuplicateField { panel: p }, DataError::NoField { .. }) => {
            a_failed_load_stays(source, p + 1, 6);
        },
        (DataError::NoField { .. }, DataError::DuplicateField { panel: p }) => {
            a_failed_load_stays(source, p + 1, 6);
        },
    }
}

/// Adds panel `p` and keys its columns, or stops at a key that is taken.
fn load_panel(
    b: &mut Builder,
    dir: &str,
    start: Option<Instant>,
    end: Option<Instant>,
    p: usize,
    columns: &Vec<String>,
    fields: &mut Vec<(String, Wire<Vector>)>,
    Ghost(source): Ghost<Source>,
) -> (r: Option<Wire<Pulses>>)
    requires
        old(b).ordered(),
        p < PANELS@.len(),
        columns@.len() < usize::MAX,
        source.dir == dir@,
        source.start == start,
        source.end == end,
        source.columns[p as int] == texts(columns@),
        all_in(*old(b), old(fields)@),
    ensures
        final(b).grown(*old(b)),
        all_in(*final(b), final(fields)@),
        ({
            let after = source.keyed(named(old(fields)@), p as int, columns@.len() as int);
            match r {
                Some(signals) => {
                    &&& after == Some(named(final(fields)@))
                    &&& final(b).has(signals)
                    &&& signals@ == port(0, source.panel(p as int))
                },
                None => after is None,
            }
        }),
{
    let (kind, prefix) = PANELS[p];
    let wires = panel(b, dir, kind, columns, start, end, false);
    let ghost before = named(fields@);
    assert(wires.carries(*b, source.panel(p as int), columns@.len() as int));
    for c in 0..columns.len()
        invariant
            p < PANELS@.len(),
            prefix@ == PANELS@[p as int].1@,
            before == named(old(fields)@),
            source.columns[p as int] == texts(columns@),
            b.grown(*old(b)),
            wires.carries(*b, source.panel(p as int), columns@.len() as int),
            all_in(*b, fields@),
            source.keyed(before, p as int, c as int) == Some(named(fields@)),
    {
        let key = key_of(prefix, columns[c].as_str());
        assert(source.columns[p as int][c as int] == columns@[c as int]@);
        if find(fields, key.as_str()).is_some() {
            proof {
                assert(source.keyed(before, p as int, c + 1) is None);
                a_clash_stays(source, before, p as int, c + 1, columns@.len() as int);
            }
            return None;
        }
        let ghost so_far = named(fields@);
        let value = wires.values[c];
        fields.push((key, value));
        assert(named(fields@) =~= so_far.push((key@, value@)));
    }
    Some(wires.signals)
}

/// Wires the cross-sectional fields of the Parquet panels in `data_dir`, read
/// from `data_start` to `data_end`. `columns` lists the value columns of each
/// of the [`PANELS`].
pub fn build_market_data(
    b: &mut Builder,
    data_dir: &str,
    data_start: Option<Instant>,
    data_end: Option<Instant>,
    columns: &Vec<Vec<String>>,
) -> (r: Result<MarketData, DataError>)
    requires
        old(b).ordered(),
        columns@.len() == PANELS@.len(),
        forall|p: int| 0 <= p < columns@.len() ==> (#[trigger] columns@[p])@.len() < usize::MAX,
    ensures
        final(b).grown(*old(b)),
        ({
            let source = Source {
                dir: data_dir@,
                start: data_start,
                end: data_end,
                columns: column_texts(columns@),
            };
            match r {
                Ok(m) => {
                    &&& source.loaded(6) matches Some(fields)
                    &&& forall|i: int|
                        0 <= i < PRICE_FIELDS@.len() ==> lookup(
                            fields,
                            (#[trigger] PRICE_FIELDS@[i])@,
                        ) is Some
                    &&& m@ == market(source, fields, old(b).axis().len() as usize)
                    &&& m.belongs(*final(b))
                },
                Err(e) => refuses(source, e),
            }
        }),
{
    let ghost source = Source {
        dir: data_dir@,
        start: data_start,
        end: data_end,
        columns: column_texts(columns@),
    };
    let n: usize = b.axis_labels().len();
    let mut fields: Vec<(String, Wire<Vector>)> = Vec::new();
    let mut row_signals: Vec<(String, Wire<Pulses>)> = Vec::new();
    assert(named(fields@) =~= seq![]);
    assert(named(row_signals@) =~= source.signals(0));
    let mut p: usize = 0;
    while p < PANELS.len()
        invariant
            p <= PANELS@.len(),
            columns@.len() == PANELS@.len(),
            forall|p: int|
                0 <= p < columns@.len() ==> (#[trigger] columns@[p])@.len() < usize::MAX,
            source == (Source {
                dir: data_dir@,
                start: data_start,
                end: data_end,
                columns: column_texts(columns@),
            }),
            b.grown(*old(b)),
            all_in(*b, fields@),
            all_in(*b, row_signals@),
            source.loaded(p as int) == Some(named(fields@)),
            named(row_signals@) == source.signals(p as int),
            row_signals@.len() == p,
        decreases PANELS@.len() - p,
    {
        assert(source.columns[p as int] == texts(columns@[p as int]@));
        let ghost before = named(row_signals@);
        match load_panel(
            b,
            data_dir,
            data_start,
            data_end,
            p,
            &columns[p],
            &mut fields,
            Ghost(source),
        ) {
            Some(signals) => {
                row_signals.push((PANELS[p].0.to_string(), signals));
                assert(named(row_signals@) =~= before.push((PANELS@[p as int].0@, signals@)));
                assert(named(row_signals@) =~= source.signals(p + 1));
            },
            None => {
                assert(source.loaded(p + 1) is None);
                return Err(DataError::DuplicateField { panel: p });
            },
        }
        p += 1;
    }
    let mut found: Vec<Wire<Vector>> = Vec::new();
    let mut i: usize = 0;
    while i < PRICE_FIELDS.len()
        invariant
            i <= PRICE_FIELDS@.len(),
            source == (Source {
                dir: data_dir@,
                start: data_start,
                end: data_end,
                columns: column_texts(columns@),
            }),
            b.grown(*old(b)),
            all_in(*b, fields@),
            source.loaded(6) == Some(named(fields@)),
            found@.len() == i,
            forall|k: int|
                0 <= k < i ==> lookup(named(fields@), (#[trigger] PRICE_FIELDS@[k])@) == Some(
                    found@[k]@,
                ) && b.has(found@[k]),
        decreases PRICE_FIELDS@.len() - i,
    {
        match find(&fields, PRICE_FIELDS[i]) {
            Some(w) => {
                found.push(w);
            },
            None => {
                return Err(DataError::NoField { index: i });
            },
        }
        i += 1;
    }
    proof {
        assert(forall|k: int|
            0 <= k < 8 ==> lookup(named(fields@), (#[trigger] PRICE_FIELDS@[k])@) == Some(
                found@[k]@,
            ) && b.has(found@[k]));
        assert(PRICE_FIELDS@[0]@ == "prices.close"@);
        assert(PRICE_FIELDS@[1]@ == "prices.open"@);
        assert(PRICE_FIELDS@[2]@ == "prices.high"@);
        assert(PRICE_FIELDS@[3]@ == "prices.low"@);
        assert(PRICE_FIELDS@[4]@ == "prices.volume"@);
        assert(PRICE_FIELDS@[5]@ == "prices.amount"@);
        assert(PRICE_FIELDS@[6]@ == "dividends.share"@);
        assert(PRICE_FIELDS@[7]@ == "dividends.cash"@);
    }
    proof {
        assert forall|q: int| 0 <= q < 6 implies b.has(#[trigger] row_signals@[q].1)
            && row_signals@[q].1@ == port(0, source.panel(q)) by {
            assert(named(row_signals@)[q] == source.signals(6)[q]);
        }
    }
    let price_signals = row_signals[0].1;
    let div_signals = row_signals[1].1;
    let equity_signals = row_signals[2].1;
    let balance_report_signals = row_signals[3].1;
    let income_report_signals = row_signals[4].1;
    let cf_report_signals = row_signals[5].1;
    let daily = b.any(price_signals);
    let close = b.collect(price_signals, found[0], daily);
    let open = b.collect(price_signals, found[1], daily);
    let high = b.collect(price_signals, found[2], daily);
    let low = b.collect(price_signals, found[3], daily);
    let volume = b.collect(price_signals, found[4], daily);
    let amount = b.collect(price_signals, found[5], daily);
    let (adj_multipliers, adjusted) = b.forward_adjust(
        price_signals,
        close,
        div_signals,
        found[6],
        found[7],
    );
    let adj_close = b.collect(price_signals, adjusted, daily);
    let log_adj = b.unary(Unary::Ln, adj_close);
    let log_return = b.rolling(Rolling::Diff, Window::Count(1), daily, log_adj);
    let m = MarketData {
        daily,
        price_signals,
        div_signals,
        equity_signals,
        balance_report_signals,
        income_report_signals,
        cf_report_signals,
        row_signals,
        fields,
        close,
        open,
        high,
        low,
        volume,
        amount,
        adj_multipliers,
        adj_close,
        log_adj,
        log_return,
        n,
    };
    Ok(m)
}

/// Whether a term is what a panel file carries in the column of that name.
pub open spec fn is_column(t: Term, file: Seq<char>, name: Seq<char>) -> bool {
    &&& t.op matches Op::Port(k) && k >= 1 && {
        let panel = t.inputs[0];
        &&& panel.op matches Op::Parquet { .. }
        &&& panel.data matches PayloadView::Table { file: read, time, axis, columns } && read
            == file && time == "date"@ && axis == "symbol"@ && k - 1 < columns.len()
            && columns[k - 1] == name
    }
}

/// The daily prices are today's: each is the field of its own name on the
/// days the stock trades, and missing on others. The adjusted close comes of
/// the close and both dividends, and is today's as well.
pub proof fn prices_are_todays(source: Source, fields: Seq<(Seq<char>, Term)>, n: usize)
    ensures
        ({
            let m = market(source, fields, n);
            let today = |x: Term| seq![m.price_signals, x, m.daily];
            let adjusted = m.adj_multipliers.inputs[0];
            &&& m.price_signals.op == Op::Port(0)
            &&& m.daily.op == Op::Any
            &&& m.daily.inputs == seq![m.price_signals]
            &&& m.close.op == Op::Collect && m.close.inputs == today(m.field("prices.close"@))
            &&& m.open.op == Op::Collect && m.open.inputs == today(m.field("prices.open"@))
            &&& m.high.op == Op::Collect && m.high.inputs == today(m.field("prices.high"@))
            &&& m.low.op == Op::Collect && m.low.inputs == today(m.field("prices.low"@))
            &&& m.volume.op == Op::Collect && m.volume.inputs == today(m.field("prices.volume"@))
            &&& m.amount.op == Op::Collect && m.amount.inputs == today(m.field("prices.amount"@))
            &&& adjusted.op == Op::ForwardAdjust
            &&& adjusted.inputs == seq![
                m.price_signals,
                m.close,
                m.div_signals,
                m.field("dividends.share"@),
                m.field("dividends.cash"@),
            ]
            &&& m.adj_multipliers.op == Op::Port(0)
            &&& m.adj_close.op == Op::Collect
            &&& m.adj_close.inputs.len() == 3
            &&& m.adj_close.inputs[0] == m.price_signals
            &&& m.adj_close.inputs[1].op == Op::Port(1)
            &&& m.adj_close.inputs[1].inputs == seq![adjusted]
            &&& m.adj_close.inputs[2] == m.daily
            &&& m.fields == fields
            &&& m.n == n
        }),
{
    let m = market(source, fields, n);
    assert(m.daily.inputs =~= seq![m.price_signals]);
    assert(m.close.inputs =~= seq![m.price_signals, m.field("prices.close"@), m.daily]);
    assert(m.open.inputs =~= seq![m.price_signals, m.field("prices.open"@), m.daily]);
    assert(m.high.inputs =~= seq![m.price_signals, m.field("prices.high"@), m.daily]);
    assert(m.low.inputs =~= seq![m.price_signals, m.field("prices.low"@), m.daily]);
    assert(m.volume.inputs =~= seq![m.price_signals, m.field("prices.volume"@), m.daily]);
    assert(m.amount.inputs =~= seq![m.price_signals, m.field("prices.amount"@), m.daily]);
}

/// The signals are those of the panels of their names, each read whole
/// between the same instants.
pub proof fn signals_are_of_their_panels(source: Source, fields: Seq<(Seq<char>, Term)>, n: usize)
    ensures
        ({
            let m = market(source, fields, n);
            let of = |signals: Term, kind: Seq<char>|
                signals.op == Op::Port(0) && signals.inputs[0].op == (Op::Parquet {
                    start: source.start,
                    end: source.end,
                    prefill: false,
                }) && (signals.inputs[0].data matches PayloadView::Table { file, .. } && file
                    == source.dir + "/"@ + kind + ".parquet"@);
            &&& of(m.price_signals, "daily_prices"@)
            &&& of(m.div_signals, "dividends"@)
            &&& of(m.equity_signals, "equity_structures"@)
            &&& of(m.balance_report_signals, "balance_sheets"@)
            &&& of(m.income_report_signals, "income_statements"@)
            &&& of(m.cf_report_signals, "cash_flow_statements"@)
        }),
{
}

/// The log return of a day is the log of the adjusted close less that of the
/// trading day before.
pub proof fn log_returns_are_daily(
    run: Run,
    source: Source,
    fields: Seq<(Seq<char>, Term)>,
    n: usize,
    lane: int,
    now: int,
)
    requires
        ({
            let m = market(source, fields, n);
            let (today, before) = ((run.back)(m.daily, now, 0), (run.back)(m.daily, now, 1));
            &&& known(run, m.adj_close, lane, today) && num(run, m.adj_close, lane, today) > 0real
            &&& known(run, m.adj_close, lane, before) && num(run, m.adj_close, lane, before)
                > 0real
        }),
    ensures
        ({
            let m = market(source, fields, n);
            let (today, before) = ((run.back)(m.daily, now, 0), (run.back)(m.daily, now, 1));
            &&& value(run, m.log_adj, lane, today) == Some(
                (run.ln)(num(run, m.adj_close, lane, today)),
            )
            &&& value(run, m.log_return, lane, now) == Some(
                (run.ln)(num(run, m.adj_close, lane, today)) - (run.ln)(
                    num(run, m.adj_close, lane, before),
                ),
            )
        }),
{
    broadcast use group_values;

    let m = market(source, fields, n);
    let (today, before) = ((run.back)(m.daily, now, 0), (run.back)(m.daily, now, 1));
    assert(cross(run, m.adj_close, today)(lane) == value(run, m.adj_close, lane, today));
    assert(cross(run, m.adj_close, before)(lane) == value(run, m.adj_close, lane, before));
}

/// A loaded field is the column it is named for: its key stands for one
/// column of one panel.
pub proof fn a_loaded_field_is_its_column(source: Source, p: int, i: int)
    requires
        0 <= p <= 6,
        source.columns.len() == 6,
        forall|q: int| 0 <= q < 6 ==> (#[trigger] source.columns[q]).len() < usize::MAX,
        source.loaded(p) is Some,
        0 <= i < source.loaded(p)->0.len(),
    ensures
        exists|q: int, c: int|
            0 <= q < p && 0 <= c < source.columns[q].len() && source.loaded(p)->0[i].0
                == #[trigger] field_key(PANELS@[q].1@, source.columns[q][c]) && is_column(
                source.loaded(p)->0[i].1,
                panel_file(source.dir, PANELS@[q].0@),
                source.columns[q][c],
            ),
    decreases p,
{
    if p > 0 {
        let before = source.loaded(p - 1)->0;
        a_keyed_field_is_its_column(source, before, p - 1, source.columns[p - 1].len() as int, i);
        if i < before.len() {
            a_loaded_field_is_its_column(source, p - 1, i);
        }
    }
}

proof fn a_keyed_field_is_its_column(
    source: Source,
    fields: Seq<(Seq<char>, Term)>,
    p: int,
    c: int,
    i: int,
)
    requires
        0 <= p < 6,
        0 <= c <= source.columns[p].len(),
        source.columns[p].len() < usize::MAX,
        source.keyed(fields, p, c) is Some,
        0 <= i < source.keyed(fields, p, c)->0.len(),
    ensures
        source.keyed(fields, p, c)->0.len() == fields.len() + c,
        i < fields.len() ==> source.keyed(fields, p, c)->0[i] == fields[i],
        i >= fields.len() ==> {
            let k = i - fields.len();
            let entry = source.keyed(fields, p, c)->0[i];
            &&& 0 <= k < c
            &&& entry.0 == field_key(PANELS@[p].1@, source.columns[p][k])
            &&& is_column(
                entry.1,
                panel_file(source.dir, PANELS@[p].0@),
                source.columns[p][k],
            )
        },
    decreases c,
{
    if c > 0 {
        let before = source.keyed(fields, p, c - 1)->0;
        if before.len() > 0 {
            if i < before.len() {
                a_keyed_field_is_its_column(source, fields, p, c - 1, i);
            } else {
                a_keyed_field_is_its_column(source, fields, p, c - 1, 0);
            }
        } else {
            keyed_grows(source, fields, p, c - 1);
        }
        if i == before.len() {
            let entry = source.keyed(fields, p, c)->0[i];
            assert(entry.1 == port(c, source.panel(p)));
            assert(entry.1.inputs[0] == source.panel(p));
        }
    }
}

proof fn keyed_grows(source: Source, fields: Seq<(Seq<char>, Term)>, p: int, c: int)
    requires
        0 <= c,
        source.keyed(fields, p, c) is Some,
    ensures
        source.keyed(fields, p, c)->0.len() == fields.len() + c,
    decreases c,
{
    if c > 0 {
        keyed_grows(source, fields, p, c - 1);
    }
}

/// The value columns are those that are not text, in file order.
pub proof fn every_number_is_a_value(columns: Seq<(String, ColumnType)>, n: int, i: int)
    requires
        0 <= i < n <= columns.len(),
    ensures
        !(columns[i].1 is Other) ==> value_columns(columns, n).contains(columns[i].0@),
        value_columns(columns, n).len() <= n,
        (forall|k: int| 0 <= k < n ==> !((#[trigger] columns[k]).1 is Other)) ==> value_columns(
            columns,
            n,
        ) == Seq::new(n as nat, |k: int| columns[k].0@),
    decreases n,
{
    let now = value_columns(columns, n);
    if n > 1 {
        every_number_is_a_value(columns, n - 1, if i < n - 1 {
            i
        } else {
            0
        });
        let before = value_columns(columns, n - 1);
        if i < n - 1 && !(columns[i].1 is Other) {
            let k = choose|k: int| 0 <= k < before.len() && before[k] == columns[i].0@;
            assert(now[k] == columns[i].0@);
        }
    } else {
        assert(value_columns(columns, 0) =~= seq![]);
    }
    if i == n - 1 && !(columns[i].1 is Other) {
        assert(now.last() == columns[i].0@);
    }
    if forall|k: int| 0 <= k < n ==> !((#[trigger] columns[k]).1 is Other) {
        assert(!(columns[n - 1].1 is Other));
        assert(now =~= Seq::new(n as nat, |k: int| columns[k].0@));
    }
}

/// A symbol keeps its own tag: every row of the table stands in the list
/// once, with both its parts, and the list has as many rows as the table.
pub proof fn a_symbol_keeps_its_tag(
    names: Seq<Seq<char>>,
    marks: Seq<Seq<char>>,
    symbols: Seq<Seq<char>>,
    tags: Seq<Seq<char>>,
    i: int,
)
    requires
        names.len() == marks.len() <= usize::MAX,
        sorted_rows(names, marks, symbols, tags),
        0 <= i < names.len(),
    ensures
        symbols.len() == names.len(),
        tags.len() == names.len(),
        exists|j: int|
            0 <= j < symbols.len() && #[trigger] symbols[j] == names[i] && tags[j] == marks[i],
        exists|j: int|
            0 <= j < names.len() && #[trigger] names[j] == symbols[i] && marks[j] == tags[i],
{
    let order = choose|order: Seq<usize>| #[trigger]
        orders_texts(names, names.len() as int, order) && symbols == picked(names, order) && tags
            == picked(marks, order);
    assert(order.contains(i as usize));
    let j = choose|j: int| 0 <= j < order.len() && order[j] == i as usize;
    assert(symbols[j] == names[i] && tags[j] == marks[i]);
    let k = order[i] as int;
    assert(names[k] == symbols[i] && marks[k] == tags[i]);
}

/// Every symbol of the table is listed, and nothing else.
pub proof fn every_symbol_is_listed(names: Seq<Seq<char>>, list: Seq<Seq<char>>, name: Seq<char>)
    requires
        names.len() <= usize::MAX,
        sorted_list(names, list),
    ensures
        list.len() == names.len(),
        list.contains(name) <==> names.contains(name),
{
    let order = choose|order: Seq<usize>| #[trigger]
        orders_texts(names, names.len() as int, order) && list == picked(names, order);
    if names.contains(name) {
        let i = choose|i: int| 0 <= i < names.len() && names[i] == name;
        assert(order.contains(i as usize));
        let j = choose|j: int| 0 <= j < order.len() && order[j] == i as usize;
        assert(list[j] == name);
    }
    if list.contains(name) {
        let j = choose|j: int| 0 <= j < list.len() && list[j] == name;
        assert(names[order[j] as int] == name);
    }
}

/// Keying is done once: the key of a key is itself, and a key always stands
/// under its prefix.
pub proof fn a_key_stands_under_its_prefix(prefix: Seq<char>, name: Seq<char>)
    ensures
        stands_under(field_key(prefix, name), prefix),
        field_key(prefix, field_key(prefix, name)) == field_key(prefix, name),
        field_key(prefix, prefix + "."@ + name) == prefix + "."@ + name,
{
    reveal_strlit(".");
    let long = prefix + "."@ + name;
    assert(long.take(prefix.len() as int) =~= prefix);
    assert(long[prefix.len() as int] == '.');
}

} // verus!
