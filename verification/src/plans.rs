//! What the plans of the programs have in common: the tradable universe, and
//! why a plan cannot be made.
use vstd::prelude::*;

use crate::data::{MarketData, MarketView, first_absent, no_such_field};

verus! {

/// The message about a universe that is too small to trade.
pub const SMALL_UNIVERSE: &'static str = "the tradable universe needs at least 2 symbols";

/// The size of the tradable universe: the given one, with zero for the whole
/// market of `n` symbols.
pub open spec fn universe_size(given: usize, n: usize) -> usize {
    if given == 0 {
        n
    } else {
        given
    }
}

/// The size of the tradable universe.
pub fn resolve_universe_size(given: usize, n: usize) -> (r: usize)
    ensures
        r == universe_size(given, n),
{
    match given {
        0 => n,
        k => k,
    }
}

/// Why a plan cannot be made.
#[derive(Debug)]
pub enum PlanError {
    /// The tradable universe has less than two symbols.
    SmallUniverse,
    /// The market data lacks a field, with the message about it.
    NoField(String),
}

impl PlanError {
    /// The message about the error.
    pub open spec fn message(self) -> Seq<char> {
        match self {
            PlanError::SmallUniverse => SMALL_UNIVERSE@,
            PlanError::NoField(message) => message@,
        }
    }

    /// The message about the error.
    pub fn text(&self) -> (r: String)
        ensures
            r@ == self.message(),
    {
        match self {
            PlanError::SmallUniverse => SMALL_UNIVERSE.to_string(),
            PlanError::NoField(message) => message.clone(),
        }
    }
}

/// Whether a plan can be made: the universe is large enough to trade, and the
/// market data has the fields.
pub open spec fn feasible(k: usize, m: MarketView, fields: Seq<&'static str>) -> bool {
    k >= 2 && m.has_all(fields)
}

/// Whether `e` is why a plan cannot be made: the universe is too small or,
/// when it is not, the first field that is missing.
pub open spec fn infeasible(
    k: usize,
    m: MarketView,
    fields: Seq<&'static str>,
    e: PlanError,
) -> bool {
    match e {
        PlanError::SmallUniverse => k < 2,
        PlanError::NoField(message) => k >= 2 && exists|i: int| #[trigger]
            first_absent(m, fields, i) && message@ == no_such_field(fields[i]@, m.fields.len()),
    }
}

/// Tells whether a plan can be made, and if not, why.
pub fn examine(k: usize, m: &MarketData, fields: &Vec<&'static str>) -> (r: Option<PlanError>)
    ensures
        match r {
            Some(e) => infeasible(k, m@, fields@, e),
            None => feasible(k, m@, fields@),
        },
{
    if k < 2 {
        return Some(PlanError::SmallUniverse);
    }
    match m.absent(fields.as_slice()) {
        Some(message) => Some(PlanError::NoField(message)),
        None => None,
    }
}

/// A plan is made or refused, never both, and a refusal has one message.
pub proof fn a_refused_plan_is_not_made(
    k: usize,
    m: MarketView,
    fields: Seq<&'static str>,
    a: PlanError,
    b: PlanError,
)
    requires
        infeasible(k, m, fields, a),
    ensures
        !feasible(k, m, fields),
        infeasible(k, m, fields, b) ==> a.message() == b.message(),
{
    if a is NoField {
        let i = choose|i: int| #[trigger]
            first_absent(m, fields, i) && a->0@ == no_such_field(fields[i]@, m.fields.len());
        assert(!m.has_field(fields[i]@));
        if infeasible(k, m, fields, b) {
            let j = choose|j: int| #[trigger]
                first_absent(m, fields, j) && b->0@ == no_such_field(fields[j]@, m.fields.len());
            assert(!m.has_field(fields[j]@));
            assert(i == j);
        }
    }
}

/// A universe of no given size is the whole market; any other has the given
/// size.
pub proof fn no_size_is_the_whole_market(given: usize, n: usize)
    ensures
        universe_size(0, n) == n,
        given > 0 ==> universe_size(given, n) == given,
{
}

/// A plan is refused for its universe only below two symbols.
pub proof fn two_symbols_suffice(k: usize, m: MarketView, fields: Seq<&'static str>, e: PlanError)
    requires
        infeasible(k, m, fields, e),
    ensures
        k >= 2 ==> !m.has_all(fields) && e is NoField,
        k < 2 ==> e is SmallUniverse,
{
    if e is NoField {
        let i = choose|i: int| #[trigger]
            first_absent(m, fields, i) && e->0@ == no_such_field(fields[i]@, m.fields.len());
        assert(!m.has_field(fields[i]@));
    }
}

} // verus!
