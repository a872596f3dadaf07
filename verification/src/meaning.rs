//! What the operators of the engine compute, on numbers.
//!
//! A [`Run`] is one run of a graph: what its sources carry, lane by lane, and
//! when its clocks tick. The value of a term in a run follows from its
//! operator and the values of its inputs, so that what a plan is for can be
//! said of numbers. Where an operator is not told here, the run gives its
//! value as it gives a source's.
//!
//! Numbers are exact and a missing value is `None`. Dividing by zero, and the
//! logarithm of what is not positive, give a missing value.
use vstd::prelude::*;

use crate::double::Double;
use crate::graph::{
    Binary, Op, ParamView, PayloadView, Rolling, Term, Unary, Window, binary, rolling, t2, unary,
};
use crate::time::Duration;

verus! {

/// One run of a graph.
pub ghost struct Run {
    /// The number of lanes of a cross-section.
    pub lanes: nat,
    /// What a source carries on a lane at a time.
    pub given: spec_fn(Term, int, int) -> Option<real>,
    /// When a clock ticked, so many ticks before its latest one at a time.
    pub back: spec_fn(Term, int, nat) -> int,
    /// When a clock ticked within a span of time that ends at a time, from
    /// the first tick on.
    pub within: spec_fn(Term, int, Duration) -> Seq<int>,
    /// The natural logarithm.
    pub ln: spec_fn(real) -> real,
}

/// A power of two.
pub open spec fn two_to(n: nat) -> real
    decreases n,
{
    if n == 0 {
        1real
    } else {
        2real * two_to((n - 1) as nat)
    }
}

/// The number of a finite pattern.
pub open spec fn number(d: Double) -> real {
    let m = d.magnitude();
    let exponent = m / 0x10_0000_0000_0000;
    let fraction = m % 0x10_0000_0000_0000;
    let size = if exponent == 0 {
        fraction as real / two_to(1074)
    } else if exponent <= 1075 {
        (0x10_0000_0000_0000 + fraction) as real / two_to((1075 - exponent) as nat)
    } else {
        (0x10_0000_0000_0000 + fraction) as real * two_to((exponent - 1075) as nat)
    };
    if d.negative() {
        -size
    } else {
        size
    }
}

/// The absolute value.
pub open spec fn absolute(x: real) -> real {
    if x < 0real {
        -x
    } else {
        x
    }
}

/// The sum over the first `n` lanes that carry a value.
pub open spec fn total(f: spec_fn(int) -> Option<real>, n: nat) -> real
    decreases n,
{
    if n == 0 {
        0real
    } else {
        total(f, (n - 1) as nat) + match f(n - 1) {
            Some(x) => x,
            None => 0real,
        }
    }
}

/// How many of the first `n` lanes carry a value.
pub open spec fn present(f: spec_fn(int) -> Option<real>, n: nat) -> nat
    decreases n,
{
    if n == 0 {
        0
    } else {
        present(f, (n - 1) as nat) + if f(n - 1) is Some {
            1nat
        } else {
            0nat
        }
    }
}

/// The mean over the first `n` lanes that carry a value.
pub open spec fn mean(f: spec_fn(int) -> Option<real>, n: nat) -> real {
    total(f, n) / (present(f, n) as real)
}

/// What two numbers give, if both are there.
pub open spec fn joined(op: Binary, x: Option<real>, y: Option<real>) -> Option<real> {
    match (x, y) {
        (Some(x), Some(y)) => match op {
            Binary::Add => Some(x + y),
            Binary::Sub => Some(x - y),
            Binary::Mul => Some(x * y),
            Binary::Div => if y == 0real {
                None
            } else {
                Some(x / y)
            },
            Binary::MarketReturn => None,
        },
        _ => None,
    }
}

/// Whether a lane's cap comes before another's: it is greater, or as great on
/// an earlier lane.
pub open spec fn outranks(caps: spec_fn(int) -> Option<real>, i: int, j: int) -> bool {
    &&& caps(i) is Some
    &&& caps(j) is Some
    &&& caps(i)->0 > caps(j)->0 || (caps(i)->0 == caps(j)->0 && i < j)
}

/// How many of the first `n` lanes come before a lane.
pub open spec fn ahead(caps: spec_fn(int) -> Option<real>, lane: int, n: nat) -> nat
    decreases n,
{
    if n == 0 {
        0
    } else {
        ahead(caps, lane, (n - 1) as nat) + if outranks(caps, n - 1, lane) {
            1nat
        } else {
            0nat
        }
    }
}

/// The cap of a lane if it is positive and among the `k` greatest.
pub open spec fn top_cap(
    caps: spec_fn(int) -> Option<real>,
    k: nat,
    n: nat,
    lane: int,
) -> Option<real> {
    if caps(lane) is Some && caps(lane)->0 > 0real && ahead(caps, lane, n) < k {
        caps(lane)
    } else {
        None
    }
}

/// A value held between two bounds, of which an infinite one is none.
pub open spec fn held(low: Double, high: Double, x: real) -> real {
    if low.finite() && x < number(low) {
        number(low)
    } else if high.finite() && number(high) < x {
        number(high)
    } else {
        x
    }
}

/// What an operator makes of a cross-section, on one of `n` lanes; `None`
/// outside where it is not told.
pub open spec fn made(
    ln: spec_fn(real) -> real,
    op: Unary,
    f: spec_fn(int) -> Option<real>,
    n: nat,
    lane: int,
) -> Option<Option<real>> {
    let x = f(lane);
    match op {
        Unary::Neg => Some(
            match x {
                Some(x) => Some(-x),
                None => None,
            },
        ),
        Unary::Ln => Some(
            match x {
                Some(x) => if x > 0real {
                    Some(ln(x))
                } else {
                    None
                },
                None => None,
            },
        ),
        Unary::Abs => Some(
            match x {
                Some(x) => Some(absolute(x)),
                None => None,
            },
        ),
        Unary::Scale(c) => Some(
            match x {
                Some(x) => Some(number(c) * x),
                None => None,
            },
        ),
        Unary::FillMissing(c) => Some(
            match x {
                Some(x) => Some(x),
                None => Some(number(c)),
            },
        ),
        Unary::MaskNonPositive => Some(
            match x {
                Some(x) => if x > 0real {
                    Some(x)
                } else {
                    None
                },
                None => None,
            },
        ),
        Unary::Signum => Some(
            match x {
                Some(x) => Some(
                    if x > 0real {
                        1real
                    } else if x < 0real {
                        -1real
                    } else {
                        0real
                    },
                ),
                None => None,
            },
        ),
        Unary::Clamp(low, high) => Some(
            match x {
                Some(x) => Some(held(low, high, x)),
                None => None,
            },
        ),
        Unary::Impute => Some(
            match x {
                Some(x) => Some(x),
                None => if present(f, n) == 0 {
                    None
                } else {
                    Some(mean(f, n))
                },
            },
        ),
        Unary::Demean => Some(
            match x {
                Some(x) => Some(x - mean(f, n)),
                None => None,
            },
        ),
        Unary::ScaleDown(c) => Some(
            match x {
                Some(x) => {
                    let gross = total(
                        |l: int|
                            match f(l) {
                                Some(y) => Some(absolute(y)),
                                None => None,
                            },
                        n,
                    );
                    if gross > number(c) {
                        Some(x * (number(c) / gross))
                    } else {
                        Some(x)
                    }
                },
                None => None,
            },
        ),
        _ => None,
    }
}

/// The mean of the first cross-section weighted by the second, over the lanes
/// that carry both.
pub open spec fn weighted_mean(
    f: spec_fn(int) -> Option<real>,
    w: spec_fn(int) -> Option<real>,
    n: nat,
) -> Option<real> {
    let weighed = |l: int| joined(Binary::Mul, f(l), w(l));
    let weights = |l: int|
        if f(l) is Some {
            w(l)
        } else {
            None
        };
    joined(Binary::Div, Some(total(weighed, n)), Some(total(weights, n)))
}

/// The weight of a lane among the `k` of the greatest positive caps, in
/// proportion to cap; any other weighs zero.
pub open spec fn cap_weight(
    caps: spec_fn(int) -> Option<real>,
    k: nat,
    n: nat,
    lane: int,
) -> real {
    match top_cap(caps, k, n, lane) {
        Some(cap) => cap / total(|l: int| top_cap(caps, k, n, l), n),
        None => 0real,
    }
}

/// What a term carries on a lane at a time.
pub open spec fn value(run: Run, t: Term, lane: int, now: int) -> Option<real>
    decreases t, 0int,
{
    match t.op {
        Op::Unary(op) => if t.inputs.len() == 1 {
            match made(run.ln, op, cross(run, t.inputs[0], now), run.lanes, lane) {
                Some(v) => v,
                None => (run.given)(t, lane, now),
            }
        } else {
            None
        },
        Op::Binary(op) => if t.inputs.len() == 2 {
            if op == Binary::MarketReturn {
                weighted_mean(
                    cross(run, t.inputs[0], now),
                    cross(run, t.inputs[1], now),
                    run.lanes,
                )
            } else {
                joined(op, value(run, t.inputs[0], lane, now), value(run, t.inputs[1], lane, now))
            }
        } else {
            None
        },
        Op::Rolling(op, window) => if t.inputs.len() == 2 {
            let clock = t.inputs[0];
            let end = value(run, t.inputs[1], lane, (run.back)(clock, now, 0));
            let start = value(run, t.inputs[1], lane, start_of(run, window, clock, now));
            let samples = along(run, t.inputs[1], lane, window, clock, now);
            let n = ticks_in(run, window, clock, now);
            match op {
                Rolling::Diff => joined(Binary::Sub, end, start),
                Rolling::PctChange => joined(Binary::Div, joined(Binary::Sub, end, start), start),
                Rolling::Lag => start,
                Rolling::Mean(least) => if present(samples, n) == 0 || present(samples, n) < least {
                    None
                } else {
                    Some(mean(samples, n))
                },
                Rolling::Sum(least) => if present(samples, n) < least {
                    None
                } else {
                    Some(total(samples, n))
                },
                Rolling::StdDev(_) => (run.given)(t, lane, now),
            }
        } else {
            None
        },
        Op::TopByCap(k) => if t.inputs.len() == 2 {
            let caps = cross(run, t.inputs[1], (run.back)(t.inputs[0], now, 0));
            Some(cap_weight(caps, k as nat, run.lanes, lane))
        } else {
            None
        },
        Op::Ratio => if t.inputs.len() == 2 {
            joined(
                Binary::Div,
                value(run, t.inputs[0], lane, now),
                value(run, t.inputs[1], lane, now),
            )
        } else {
            None
        },
        Op::SumFinite => if t.inputs.len() == 1 {
            Some(total(cross(run, t.inputs[0], now), run.lanes))
        } else {
            None
        },
        Op::Full(_, c) => Some(number(c)),
        Op::Record => if t.inputs.len() == 2 {
            value(run, t.inputs[1], lane, now)
        } else {
            None
        },
        _ => (run.given)(t, lane, now),
    }
}

/// A cross-section at a time.
pub open spec fn cross(run: Run, x: Term, now: int) -> spec_fn(int) -> Option<real>
    decreases x, 1int,
{
    |l: int| value(run, x, l, now)
}

/// What a lane carried at the ticks of a window, by their number.
pub open spec fn along(
    run: Run,
    x: Term,
    lane: int,
    window: Window,
    clock: Term,
    now: int,
) -> spec_fn(int) -> Option<real>
    decreases x, 1int,
{
    |i: int| value(run, x, lane, ticked(run, window, clock, now, i))
}

/// How many ticks of a clock a window holds.
pub open spec fn ticks_in(run: Run, window: Window, clock: Term, now: int) -> nat {
    match window {
        Window::Count(n) => n as nat,
        Window::Span(d) => (run.within)(clock, now, d).len(),
    }
}

/// When tick `i` of a window was.
pub open spec fn ticked(run: Run, window: Window, clock: Term, now: int, i: int) -> int {
    match window {
        Window::Count(n) => (run.back)(clock, now, (n - 1 - i) as nat),
        Window::Span(d) => (run.within)(clock, now, d)[i],
    }
}

/// When the window of a rolling operator starts.
pub open spec fn start_of(run: Run, window: Window, clock: Term, now: int) -> int {
    match window {
        Window::Count(n) => (run.back)(clock, now, n as nat),
        Window::Span(d) => (run.within)(clock, now, d).first(),
    }
}

/// Two cross-sections are joined lane by lane.
pub broadcast proof fn two_are_joined(
    run: Run,
    op: Binary,
    x: Term,
    y: Term,
    lane: int,
    now: int,
)
    requires
        op != Binary::MarketReturn,
    ensures
        #[trigger] value(run, binary(op, x, y), lane, now) == joined(
            op,
            value(run, x, lane, now),
            value(run, y, lane, now),
        ),
{
    let t = binary(op, x, y);
    assert(t.inputs[0] == x && t.inputs[1] == y);
}

/// An operator makes one cross-section from another.
pub broadcast proof fn one_is_made(run: Run, op: Unary, x: Term, lane: int, now: int)
    requires
        made(run.ln, op, cross(run, x, now), run.lanes, lane) is Some,
    ensures
        #[trigger] value(run, unary(op, x), lane, now) == made(
            run.ln,
            op,
            cross(run, x, now),
            run.lanes,
            lane,
        )->0,
{
    let t = unary(op, x);
    assert(t.inputs[0] == x);
}

/// A change is told between the ends of its window.
pub broadcast proof fn a_window_is_read(
    run: Run,
    op: Rolling,
    window: Window,
    clock: Term,
    x: Term,
    lane: int,
    now: int,
)
    ensures
        ({
            let r = #[trigger] value(run, rolling(op, window, clock, x), lane, now);
            let end = value(run, x, lane, (run.back)(clock, now, 0));
            let start = value(run, x, lane, start_of(run, window, clock, now));
            &&& op == Rolling::Diff ==> r == joined(Binary::Sub, end, start)
            &&& op == Rolling::PctChange ==> r == joined(
                Binary::Div,
                joined(Binary::Sub, end, start),
                start,
            )
            &&& op == Rolling::Lag ==> r == start
        }),
{
    let t = rolling(op, window, clock, x);
    assert(t.inputs[0] == clock && t.inputs[1] == x);
}

pub broadcast group group_values {
    two_are_joined,
    one_is_made,
    a_window_is_read,
    a_cross_section_has_lanes,
    a_record_keeps_its_input,
}

/// A quotient times its divisor is what was divided.
pub proof fn a_quotient_times_its_divisor(x: real, y: real)
    requires
        y != 0real,
    ensures
        (x / y) * y == x,
        y * (x / y) == x,
{
    assert((x / y) * y == x) by (nonlinear_arith)
        requires
            y != 0real,
    ;
    assert(y * (x / y) == (x / y) * y) by (nonlinear_arith);
}

/// A relative change does not depend on the scale: a stock whose values are
/// all multiplied by one factor changes by the same fraction.
pub proof fn relative_changes_have_no_scale(
    run: Run,
    window: Window,
    clock: Term,
    x: Term,
    y: Term,
    factor: real,
    lane: int,
    now: int,
)
    requires
        factor != 0real,
        forall|at: int| #[trigger]
            value(run, y, lane, at) == match value(run, x, lane, at) {
                Some(v) => Some(factor * v),
                None => None,
            },
    ensures
        value(run, rolling(Rolling::PctChange, window, clock, y), lane, now) == value(
            run,
            rolling(Rolling::PctChange, window, clock, x),
            lane,
            now,
        ),
{
    broadcast use group_values;

    let end = (run.back)(clock, now, 0);
    let start = start_of(run, window, clock, now);
    let (a, b) = (value(run, x, lane, end), value(run, x, lane, start));
    let (c, d) = (value(run, y, lane, end), value(run, y, lane, start));
    if a is Some && b is Some {
        let (a, b) = (a->0, b->0);
        if b != 0real {
            assert(factor * b != 0real) by (nonlinear_arith)
                requires
                    factor != 0real,
                    b != 0real,
            ;
            assert((factor * a - factor * b) / (factor * b) == (a - b) / b) by (nonlinear_arith)
                requires
                    factor != 0real,
                    b != 0real,
                    factor * b != 0real,
            ;
        } else {
            assert(factor * b == 0real) by (nonlinear_arith)
                requires
                    b == 0real,
            ;
        }
    }
}

/// A lane of a cross-section.
pub broadcast proof fn a_cross_section_has_lanes(run: Run, x: Term, lane: int, now: int)
    ensures
        #[trigger] cross(run, x, now)(lane) == value(run, x, lane, now),
{
}

/// Whether a term carries a value on a lane at a time.
pub open spec fn known(run: Run, t: Term, lane: int, now: int) -> bool {
    value(run, t, lane, now) is Some
}

/// The number that a term carries on a lane at a time.
pub open spec fn num(run: Run, t: Term, lane: int, now: int) -> real {
    value(run, t, lane, now)->0
}

/// What a recorded series carries is what is recorded.
pub broadcast proof fn a_record_keeps_its_input(
    run: Run,
    clock: Term,
    x: Term,
    lane: int,
    now: int,
)
    ensures
        #[trigger] value(run, t2(Op::Record, clock, x), lane, now) == value(run, x, lane, now),
{
    let t = t2(Op::Record, clock, x);
    assert(t.inputs[1] == x);
}

/// The mean over a window is that of what its ticks carried.
pub proof fn a_rolling_mean_is_a_mean(
    run: Run,
    least: usize,
    window: Window,
    clock: Term,
    x: Term,
    lane: int,
    now: int,
)
    ensures
        ({
            let samples = along(run, x, lane, window, clock, now);
            let n = ticks_in(run, window, clock, now);
            value(run, rolling(Rolling::Mean(least), window, clock, x), lane, now) == if present(
                samples,
                n,
            ) == 0 || present(samples, n) < least {
                None
            } else {
                Some(mean(samples, n))
            }
        }),
{
    let t = rolling(Rolling::Mean(least), window, clock, x);
    assert(t.inputs[0] == clock && t.inputs[1] == x);
}

/// The sum over a window is that of what its ticks carried.
pub proof fn a_rolling_sum_is_a_sum(
    run: Run,
    least: usize,
    window: Window,
    clock: Term,
    x: Term,
    lane: int,
    now: int,
)
    ensures
        ({
            let samples = along(run, x, lane, window, clock, now);
            let n = ticks_in(run, window, clock, now);
            value(run, rolling(Rolling::Sum(least), window, clock, x), lane, now) == if present(
                samples,
                n,
            ) < least {
                None
            } else {
                Some(total(samples, n))
            }
        }),
{
    let t = rolling(Rolling::Sum(least), window, clock, x);
    assert(t.inputs[0] == clock && t.inputs[1] == x);
}

/// A quotient of a number by one that is positive and no greater is no less
/// than one.
pub proof fn no_less_than_one(x: real, y: real)
    requires
        0real < y <= x,
    ensures
        x / y >= 1real,
{
    assert(x / y >= 1real) by (nonlinear_arith)
        requires
            0real < y <= x,
    ;
}

/// Whether a pattern is of the number closest to `p / q` that has the
/// exponent at which `shift` binary places follow the point.
pub open spec fn closest(d: Double, p: int, q: int, shift: nat) -> bool {
    let m = d.magnitude();
    let significand = 0x10_0000_0000_0000 + m % 0x10_0000_0000_0000;
    let off = significand * q - p * vstd::arithmetic::power2::pow2(shift);
    &&& !d.negative()
    &&& m / 0x10_0000_0000_0000 == 1075 - shift
    &&& -q <= 2 * off <= q
}

/// A span of so many days.
pub open spec fn days_long(n: int) -> Duration {
    Duration { nanos: (n * 86_400_000_000_000) as i64 }
}

/// The number of a pattern whose significand is a multiple of the power of
/// two that it is divided by.
pub proof fn patterns_are_numbers(d: Double, exponent: int, fraction: int, shift: nat, n: int)
    requires
        0 <= fraction < 0x10_0000_0000_0000,
        0 < exponent,
        d.magnitude() == exponent * 0x10_0000_0000_0000 + fraction,
        shift == 1075 - exponent,
        0x10_0000_0000_0000 + fraction == n * vstd::arithmetic::power2::pow2(shift),
    ensures
        number(d) == if d.negative() {
            -(n as real)
        } else {
            n as real
        },
{
    let power = vstd::arithmetic::power2::pow2(shift);
    two_to_is_a_power(shift);
    vstd::arithmetic::power2::lemma_pow2_pos(shift);
    let m = d.magnitude();
    assert(m / 0x10_0000_0000_0000 == exponent && m % 0x10_0000_0000_0000 == fraction);
    let (a, b) = (n as real, power as real);
    assert((n * power) as real == a * b) by (nonlinear_arith)
        requires
            a == n as real,
            b == power as real,
    ;
    assert((a * b) / b == a) by (nonlinear_arith)
        requires
            b > 0real,
    ;
}

proof fn two_to_is_a_power(n: nat)
    ensures
        two_to(n) == vstd::arithmetic::power2::pow2(n) as real,
    decreases n,
{
    if n == 0 {
        vstd::arithmetic::power2::lemma2_to64();
    } else {
        two_to_is_a_power((n - 1) as nat);
        vstd::arithmetic::power2::lemma_pow2_unfold(n);
    }
}

proof fn fewer_are_ahead_of_the_greater(
    caps: spec_fn(int) -> Option<real>,
    i: int,
    j: int,
    n: nat,
)
    requires
        caps(i) is Some,
        caps(j) is Some,
        caps(i)->0 > caps(j)->0,
    ensures
        ahead(caps, i, n) <= ahead(caps, j, n),
    decreases n,
{
    if n > 0 {
        fewer_are_ahead_of_the_greater(caps, i, j, (n - 1) as nat);
    }
}

proof fn top_caps_add_up(caps: spec_fn(int) -> Option<real>, k: nat, n: nat, m: nat, lane: int)
    requires
        0 <= lane < m,
    ensures
        total(|l: int| top_cap(caps, k, n, l), m) >= 0real,
        top_cap(caps, k, n, lane) is Some ==> total(|l: int| top_cap(caps, k, n, l), m) >= top_cap(
            caps,
            k,
            n,
            lane,
        )->0,
    decreases m,
{
    let f = |l: int| top_cap(caps, k, n, l);
    assert(f(m - 1) == top_cap(caps, k, n, m - 1));
    if lane < m - 1 {
        top_caps_add_up(caps, k, n, (m - 1) as nat, lane);
    } else if m > 1 {
        top_caps_add_up(caps, k, n, (m - 1) as nat, 0);
    } else {
        assert(total(f, 0) == 0real);
    }
}

/// A greater cap never weighs less, two that weigh anything weigh in
/// proportion, and only a positive cap weighs anything.
pub proof fn weights_follow_caps(
    caps: spec_fn(int) -> Option<real>,
    k: nat,
    n: nat,
    i: int,
    j: int,
)
    requires
        0 <= i < n,
        0 <= j < n,
        caps(i) is Some,
        caps(j) is Some,
    ensures
        caps(i)->0 > caps(j)->0 ==> cap_weight(caps, k, n, i) >= cap_weight(caps, k, n, j),
        cap_weight(caps, k, n, i) > 0real && cap_weight(caps, k, n, j) > 0real ==> cap_weight(
            caps,
            k,
            n,
            i,
        ) * caps(j)->0 == cap_weight(caps, k, n, j) * caps(i)->0,
        cap_weight(caps, k, n, i) > 0real ==> caps(i)->0 > 0real,
        cap_weight(caps, k, n, i) >= 0real,
{
    let whole = total(|l: int| top_cap(caps, k, n, l), n);
    top_caps_add_up(caps, k, n, n, i);
    top_caps_add_up(caps, k, n, n, j);
    let (a, b) = (caps(i)->0, caps(j)->0);
    if a > b {
        fewer_are_ahead_of_the_greater(caps, i, j, n);
    }
    if top_cap(caps, k, n, i) is Some {
        assert(a / whole > 0real) by (nonlinear_arith)
            requires
                0real < a <= whole,
        ;
    }
    if top_cap(caps, k, n, j) is Some {
        assert(b / whole > 0real) by (nonlinear_arith)
            requires
                0real < b <= whole,
        ;
        if a > b {
            assert(a / whole >= b / whole) by (nonlinear_arith)
                requires
                    0real < b < a,
                    a <= whole,
            ;
        }
        if top_cap(caps, k, n, i) is Some {
            assert((a / whole) * b == (b / whole) * a) by (nonlinear_arith)
                requires
                    0real < a <= whole,
            ;
        }
    }
}

/// The number of the pattern whose exponent is one less than one's.
pub proof fn half_of_one(d: Double)
    requires
        d.bits == 0x3fe0_0000_0000_0000,
    ensures
        number(d) * 2real == 1real,
{
    two_to_is_a_power(53);
    vstd::arithmetic::power2::lemma2_to64_rest();
    let m = d.magnitude();
    assert(m / 0x10_0000_0000_0000 == 1022 && m % 0x10_0000_0000_0000 == 0);
    let x = 0x10_0000_0000_0000 as real;
    assert((x / (2real * x)) * 2real == 1real) by (nonlinear_arith)
        requires
            x > 0real,
    ;
}

/// Whether a term carries, on every lane, by which fraction another changed
/// over so many ticks of a clock: what it was, times one more than the
/// fraction, is what it is.
pub open spec fn is_relative_change(run: Run, ticks: nat, clock: Term, x: Term, t: Term) -> bool {
    forall|lane: int, now: int|
        known(run, x, lane, (run.back)(clock, now, 0)) && known(
            run,
            x,
            lane,
            (run.back)(clock, now, ticks),
        ) && num(run, x, lane, (run.back)(clock, now, ticks)) != 0real ==> #[trigger] value(
            run,
            t,
            lane,
            now,
        ) is Some && num(run, x, lane, (run.back)(clock, now, ticks)) * (1real + value(
            run,
            t,
            lane,
            now,
        )->0) == num(run, x, lane, (run.back)(clock, now, 0))
}

/// Whether a term carries, on every lane, what another carried so many ticks
/// of a clock ago.
pub open spec fn is_late(run: Run, ticks: nat, clock: Term, x: Term, t: Term) -> bool {
    forall|lane: int, now: int| #[trigger]
        value(run, t, lane, now) == value(run, x, lane, (run.back)(clock, now, ticks))
}

/// The relative change over a count of ticks.
pub proof fn relative_changes_are_told(run: Run, ticks: usize, clock: Term, x: Term)
    ensures
        is_relative_change(
            run,
            ticks as nat,
            clock,
            x,
            rolling(Rolling::PctChange, Window::Count(ticks), clock, x),
        ),
        is_late(
            run,
            ticks as nat,
            clock,
            x,
            rolling(Rolling::Lag, Window::Count(ticks), clock, x),
        ),
{
    broadcast use group_values;

    let t = rolling(Rolling::PctChange, Window::Count(ticks), clock, x);
    assert forall|lane: int, now: int|
        known(run, x, lane, (run.back)(clock, now, 0)) && known(
            run,
            x,
            lane,
            (run.back)(clock, now, ticks as nat),
        ) && num(run, x, lane, (run.back)(clock, now, ticks as nat)) != 0real implies
        #[trigger] value(run, t, lane, now) is Some && num(
        run,
        x,
        lane,
        (run.back)(clock, now, ticks as nat),
    ) * (1real + value(run, t, lane, now)->0) == num(run, x, lane, (run.back)(clock, now, 0)) by {
        let today = num(run, x, lane, (run.back)(clock, now, 0));
        let past = num(run, x, lane, (run.back)(clock, now, ticks as nat));
        a_quotient_times_its_divisor(today - past, past);
        let g = (today - past) / past;
        assert(past * (1real + g) == past + past * g) by (nonlinear_arith);
    }
}

/// Whether a term is what a Python module of that name makes.
pub open spec fn asks(t: Term, name: Seq<char>) -> bool {
    t.op == Op::Module && (t.data matches PayloadView::Module { name: asked, .. } && asked == name)
}

/// Whether a Python module is given a value for a parameter.
pub open spec fn is_told(t: Term, key: Seq<char>, v: ParamView) -> bool {
    t.data matches PayloadView::Module { params, .. } && params.contains((key, v))
}

/// The sum of scaled values is the scaled sum.
pub proof fn sums_scale(
    f: spec_fn(int) -> Option<real>,
    g: spec_fn(int) -> Option<real>,
    c: real,
    n: nat,
)
    requires
        forall|l: int|
            0 <= l < n ==> #[trigger] g(l) == match f(l) {
                Some(x) => Some(x * c),
                None => None,
            },
    ensures
        total(g, n) == total(f, n) * c,
    decreases n,
{
    if n > 0 {
        sums_scale(f, g, c, (n - 1) as nat);
        let rest = total(f, (n - 1) as nat);
        let x = match f(n - 1) {
            Some(x) => x,
            None => 0real,
        };
        assert(g(n - 1) == match f(n - 1) {
            Some(x) => Some(x * c),
            None => None,
        });
        assert((rest + x) * c == rest * c + x * c) by (nonlinear_arith);
        assert(0real * c == 0real) by (nonlinear_arith);
    } else {
        assert(0real * c == 0real) by (nonlinear_arith);
    }
}

/// Equal cross-sections have equal sums.
pub proof fn sums_agree(f: spec_fn(int) -> Option<real>, g: spec_fn(int) -> Option<real>, n: nat)
    requires
        forall|l: int| 0 <= l < n ==> #[trigger] f(l) == g(l),
    ensures
        total(f, n) == total(g, n),
        present(f, n) == present(g, n),
    decreases n,
{
    if n > 0 {
        sums_agree(f, g, (n - 1) as nat);
        assert(f(n - 1) == g(n - 1));
    }
}

/// The pattern without a bit is of zero.
pub proof fn zero_is_nothing()
    ensures
        number(Double { bits: 0 }) == 0real,
        (Double { bits: 0 }).finite(),
{
    two_to_is_a_power(1074);
    vstd::arithmetic::power2::lemma_pow2_pos(1074);
    let x = two_to(1074);
    assert(0real / x == 0real) by (nonlinear_arith)
        requires
            x > 0real,
    ;
}

/// What the last binary place of a pattern stands for.
spec fn unit(exponent: int) -> real {
    if exponent == 0 {
        1real / two_to(1074)
    } else if exponent <= 1075 {
        1real / two_to((1075 - exponent) as nat)
    } else {
        two_to((exponent - 1075) as nat)
    }
}

/// The number of a magnitude.
spec fn sized(m: int) -> real {
    let exponent = m / 0x10_0000_0000_0000;
    let fraction = m % 0x10_0000_0000_0000;
    if exponent == 0 {
        fraction as real * unit(0)
    } else {
        (0x10_0000_0000_0000 + fraction) as real * unit(exponent)
    }
}

proof fn two_to_is_positive(n: nat)
    ensures
        two_to(n) > 0real,
        two_to(n + 1) == 2real * two_to(n),
    decreases n,
{
    if n > 0 {
        two_to_is_positive((n - 1) as nat);
    }
}

proof fn units_double(exponent: int)
    requires
        exponent >= 0,
    ensures
        unit(exponent) > 0real,
        exponent == 0 ==> unit(1) == unit(0),
        exponent >= 1 ==> unit(exponent + 1) == 2real * unit(exponent),
{
    if exponent == 0 || exponent <= 1075 {
        let k = if exponent == 0 {
            1074nat
        } else {
            (1075 - exponent) as nat
        };
        two_to_is_positive(k);
        let p = two_to(k);
        assert(1real / p > 0real) by (nonlinear_arith)
            requires
                p > 0real,
        ;
        if 1 <= exponent < 1075 {
            let q = two_to((k - 1) as nat);
            two_to_is_positive((k - 1) as nat);
            assert(1real / q == 2real * (1real / (2real * q))) by (nonlinear_arith)
                requires
                    q > 0real,
            ;
        } else if exponent == 1075 {
            assert(two_to(0) == 1real);
            assert(two_to(1) == 2real * two_to(0));
            assert(1real / 1real == 1real) by (nonlinear_arith);
        }
    } else {
        two_to_is_positive((exponent - 1075) as nat);
    }
}

proof fn sizes_rise(a: int, b: int)
    requires
        0 <= a < b,
    ensures
        sized(a) < sized(b),
        sized(0) == 0real,
        sized(b) > 0real,
    decreases b,
{
    let c = b - 1;
    let (e, f) = (c / 0x10_0000_0000_0000, c % 0x10_0000_0000_0000);
    let (g, h) = (b / 0x10_0000_0000_0000, b % 0x10_0000_0000_0000);
    units_double(e);
    let u = unit(e);
    assert(0real * unit(0) == 0real) by (nonlinear_arith);
    assert(sized(b) == sized(c) + u) by {
        if g == e {
            assert(h == f + 1);
            let x = if e == 0 {
                f as real
            } else {
                (0x10_0000_0000_0000 + f) as real
            };
            assert((x + 1real) * u == x * u + u) by (nonlinear_arith);
        } else {
            assert(g == e + 1 && h == 0 && f == 0x10_0000_0000_0000 - 1);
            if e == 0 {
                let x = f as real;
                assert((x + 1real) * u == x * u + u) by (nonlinear_arith);
            } else {
                let x = (0x10_0000_0000_0000 + f) as real;
                let y = 0x10_0000_0000_0000 as real;
                assert(x + 1real == 2real * y);
                assert(y * (2real * u) == x * u + u) by (nonlinear_arith)
                    requires
                        x + 1real == 2real * y,
                ;
            }
        }
    }
    if a < c {
        sizes_rise(a, c);
    } else if a > 0 {
        sizes_rise(0, a);
    }
}

proof fn numbers_are_sized(d: Double)
    ensures
        number(d) == if d.negative() {
            -sized(d.magnitude())
        } else {
            sized(d.magnitude())
        },
{
    let m = d.magnitude();
    let (e, f) = (m / 0x10_0000_0000_0000, m % 0x10_0000_0000_0000);
    if e <= 1075 {
        let k = if e == 0 {
            1074nat
        } else {
            (1075 - e) as nat
        };
        two_to_is_positive(k);
        let p = two_to(k);
        let x = if e == 0 {
            f as real
        } else {
            (0x10_0000_0000_0000 + f) as real
        };
        assert(x / p == x * (1real / p)) by (nonlinear_arith)
            requires
                p > 0real,
        ;
    }
}

/// The order of patterns is the order of their numbers: of two finite values
/// one is below the other exactly when its number is smaller.
pub proof fn patterns_are_ordered_as_numbers(a: Double, b: Double)
    requires
        a.finite(),
        b.finite(),
    ensures
        a.below(b) <==> number(a) < number(b),
        a.at_most(b) <==> number(a) <= number(b),
        a.usable() <==> number(a) > 0real,
{
    numbers_are_sized(a);
    numbers_are_sized(b);
    let (x, y) = (a.magnitude(), b.magnitude());
    assert(0real * unit(0) == 0real) by (nonlinear_arith);
    assert(sized(0) == 0real);
    if x > 0 {
        sizes_rise(0, x);
    }
    if y > 0 {
        sizes_rise(0, y);
    }
    if x < y {
        sizes_rise(x, y);
    } else if y < x {
        sizes_rise(y, x);
    }
}

} // verus!
