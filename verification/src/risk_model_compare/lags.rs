//! The scores of a day rest on predictions made before it.
use vstd::prelude::*;

use crate::data::MarketView;
use crate::graph::{Op, Rolling, Term, Window, port, t2};
use crate::ops::ticks;
use crate::risk_model_compare::args::{Args, VariantView};
use crate::risk_model_compare::plan::{
    daily_returns, index_weights, lagged, least_variance, metrics, prediction, score_clock,
    scored_book,
};
use crate::time::Instant;

verus! {

/// Whether `t` is what some port carried one tick of the clock ago.
pub open spec fn is_lag(t: Term, clock: Term) -> bool {
    &&& t.op == Op::Rolling(Rolling::Lag, Window::Count(1))
    &&& t.inputs.len() == 2
    &&& t.inputs[0] == clock
}

/// Whether `t` reads `p` on some way that does not lead through a one-tick
/// lag of the clock.
pub open spec fn reads_unlagged(t: Term, p: Term, clock: Term) -> bool
    decreases t,
{
    if t == p {
        true
    } else if is_lag(t, clock) {
        reads_unlagged(t.inputs[0], p, clock)
    } else {
        exists|i: int|
            0 <= i < t.inputs.len() && reads_unlagged(#[trigger] t.inputs[i], p, clock)
    }
}

/// How deep a term is.
spec fn depth(t: Term) -> nat
    decreases t, 1int,
{
    1 + deepest(t.inputs)
}

/// How deep the deepest of some terms is.
spec fn deepest(s: Seq<Term>) -> nat
    decreases s, 0int,
{
    if s.len() == 0 {
        0
    } else {
        let last = depth(s[s.len() - 1]);
        let rest = deepest(s.subrange(0, s.len() - 1));
        if last > rest {
            last
        } else {
            rest
        }
    }
}

proof fn none_is_deeper(s: Seq<Term>, i: int)
    requires
        0 <= i < s.len(),
    ensures
        depth(s[i]) <= deepest(s),
    decreases s.len(),
{
    if i < s.len() - 1 {
        none_is_deeper(s.subrange(0, s.len() - 1), i);
    }
}

proof fn inputs_are_shallower(t: Term, i: int)
    requires
        0 <= i < t.inputs.len(),
    ensures
        depth(t.inputs[i]) < depth(t),
{
    none_is_deeper(t.inputs, i);
}

/// A term does not read one that is deeper.
proof fn a_shallower_term_is_apart(t: Term, p: Term, clock: Term)
    requires
        depth(t) < depth(p),
    ensures
        !reads_unlagged(t, p, clock),
    decreases t,
{
    assert forall|i: int| 0 <= i < t.inputs.len() implies !reads_unlagged(
        #[trigger] t.inputs[i],
        p,
        clock,
    ) by {
        inputs_are_shallower(t, i);
        a_shallower_term_is_apart(t.inputs[i], p, clock);
    }
}

/// A day is never scored against a prediction that has already trained on its
/// return: whatever a variant's metrics read of its prediction, they read one
/// tick of the scoring clock late.
pub proof fn scores_read_only_lagged_predictions(
    args: Args,
    m: MarketView,
    instants: Seq<Instant>,
    v: VariantView,
    risk: Term,
    i: int,
)
    requires
        0 <= i < 7,
    ensures
        ({
            let p = prediction(args, m, instants, v, risk);
            let clock = score_clock(m, instants);
            !reads_unlagged(
                t2(Op::Record, m.daily, metrics(args, m, instants, p)[i]),
                p,
                clock,
            )
        }),
{
    let p = prediction(args, m, instants, v, risk);
    let clock = score_clock(m, instants);
    let daily = m.daily;
    let realized = daily_returns(m);
    let universe = index_weights(args, m, instants);
    assert(p.inputs[0] == daily && p.inputs[2] == realized && p.inputs[3] == ticks(instants)
        && p.inputs[4] == universe);
    inputs_are_shallower(p, 0);
    inputs_are_shallower(p, 2);
    inputs_are_shallower(p, 3);
    inputs_are_shallower(p, 4);
    a_shallower_term_is_apart(daily, p, clock);
    a_shallower_term_is_apart(realized, p, clock);
    a_shallower_term_is_apart(ticks(instants), p, clock);
    assert(!reads_unlagged(clock, p, clock)) by {
        assert(clock.op == Op::Or);
        assert(clock.inputs =~= seq![daily, ticks(instants)]);
    }
    let x = lagged(m, instants, port(0, p));
    let f = lagged(m, instants, port(1, p));
    let d = lagged(m, instants, port(2, p));
    let u = lagged(m, instants, universe);
    let held = lagged(m, instants, least_variance(args, m, instants, p));
    assert(is_lag(x, clock) && is_lag(f, clock) && is_lag(d, clock) && is_lag(u, clock) && is_lag(
        held,
        clock,
    ));
    assert(!reads_unlagged(x, p, clock) && !reads_unlagged(f, p, clock) && !reads_unlagged(
        d,
        p,
        clock,
    ) && !reads_unlagged(u, p, clock) && !reads_unlagged(held, p, clock));
    let w = scored_book(args, m, instants, p);
    assert(w.inputs =~= seq![held]);
    assert(!reads_unlagged(w, p, clock));
    let all = metrics(args, m, instants, p);
    let t = all[i];
    if i == 0 {
        assert(t.inputs =~= seq![daily, realized, u, x, f, d]);
    } else if i == 1 {
        assert(t.inputs =~= seq![daily, w, realized]);
    } else if i == 2 {
        assert(t.inputs =~= seq![daily, w, x, f, d]);
        assert(t.inputs[2].op != p.inputs[2].op);
    } else if i == 3 || i == 4 {
        assert(t.inputs =~= seq![daily, u, x, f, d]);
        assert(t.inputs[2].op != p.inputs[2].op);
    } else if i == 5 {
        assert(t.inputs =~= seq![daily, w]);
    } else {
        let short = t.inputs[0];
        let gross = t.inputs[1];
        assert(t.inputs =~= seq![short, gross]);
        assert(short.inputs =~= seq![daily, w]);
        assert(gross.inputs =~= seq![daily, w]);
        assert(!reads_unlagged(short, p, clock));
        assert(!reads_unlagged(gross, p, clock));
    }
    assert(t != p);
    assert(!is_lag(t, clock));
    assert(!reads_unlagged(t, p, clock));
    let record = t2(Op::Record, daily, t);
    assert(record.inputs =~= seq![daily, t]);
}

} // verus!
