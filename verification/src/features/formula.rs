//! Formula texts: how calls, ratios and differences of the expression
//! vocabulary are spelled.
use vstd::prelude::*;

use crate::text::{decimal, decimal_text};

verus! {

/// A call with one argument: `f(x)`.
pub open spec fn call(f: Seq<char>, x: Seq<char>) -> Seq<char> {
    f + "("@ + x + ")"@
}

/// A call over a window: `f(x, d)`.
pub open spec fn over(f: Seq<char>, x: Seq<char>, d: nat) -> Seq<char> {
    f + "("@ + x + ", "@ + decimal(d) + ")"@
}

/// A call of two arguments over a window: `f(x, y, d)`.
pub open spec fn over2(f: Seq<char>, x: Seq<char>, y: Seq<char>, d: nat) -> Seq<char> {
    f + "("@ + x + ", "@ + y + ", "@ + decimal(d) + ")"@
}

/// The difference `a - b`.
pub open spec fn minus(a: Seq<char>, b: Seq<char>) -> Seq<char> {
    a + " - "@ + b
}

/// The quotient `a / b`.
pub open spec fn quotient(a: Seq<char>, b: Seq<char>) -> Seq<char> {
    a + " / "@ + b
}

/// The product `a * b`.
pub open spec fn times(a: Seq<char>, b: Seq<char>) -> Seq<char> {
    a + " * "@ + b
}

/// `(a)`.
pub open spec fn group(a: Seq<char>) -> Seq<char> {
    "("@ + a + ")"@
}

/// Spells `f(x)`.
pub fn spell_call(f: &str, x: &str) -> (r: String)
    ensures
        r@ == call(f@, x@),
{
    f.to_string().concat("(").concat(x).concat(")")
}

/// Spells `f(x, d)`.
pub fn spell_over(f: &str, x: &str, d: usize) -> (r: String)
    ensures
        r@ == over(f@, x@, d as nat),
{
    f.to_string().concat("(").concat(x).concat(", ").concat(decimal_text(d).as_str()).concat(")")
}

/// Spells `f(x, y, d)`.
pub fn spell_over2(f: &str, x: &str, y: &str, d: usize) -> (r: String)
    ensures
        r@ == over2(f@, x@, y@, d as nat),
{
    f.to_string().concat("(").concat(x).concat(", ").concat(y).concat(", ").concat(
        decimal_text(d).as_str(),
    ).concat(")")
}

/// Spells `a - b`.
pub fn spell_minus(a: &str, b: &str) -> (r: String)
    ensures
        r@ == minus(a@, b@),
{
    a.to_string().concat(" - ").concat(b)
}

/// Spells `a / b`.
pub fn spell_quotient(a: &str, b: &str) -> (r: String)
    ensures
        r@ == quotient(a@, b@),
{
    a.to_string().concat(" / ").concat(b)
}

/// Spells `a * b`.
pub fn spell_times(a: &str, b: &str) -> (r: String)
    ensures
        r@ == times(a@, b@),
{
    a.to_string().concat(" * ").concat(b)
}

/// Spells `(a)`.
pub fn spell_group(a: &str) -> (r: String)
    ensures
        r@ == group(a@),
{
    "(".to_string().concat(a).concat(")")
}

/// The names and formulas of a list, as characters.
pub open spec fn spelled(v: Seq<(String, String)>) -> Seq<(Seq<char>, Seq<char>)> {
    v.map_values(|p: (String, String)| (p.0@, p.1@))
}

/// Adds a named formula to a list.
pub(crate) fn put(list: &mut Vec<(String, String)>, name: &str, source: String)
    ensures
        final(list)@.len() == old(list)@.len() + 1,
        spelled(final(list)@) == spelled(old(list)@).push((name@, source@)),
{
    list.push((name.to_string(), source));
    assert(spelled(list@) =~= spelled(old(list)@).push((name@, source@)));
}

} // verus!
