//! Factor expressions over named fields.
//!
//! A [`Context`] holds the fields an expression may read, such as `$close`,
//! and remembers every expression it has lowered into the graph: the same
//! spelling always gives the same wire, also after a field has been
//! registered anew.
use vstd::prelude::*;

use crate::data::{all_in, named};
use crate::features::formula::spelled;
use crate::graph::{Builder, Op, Payload, PayloadView, Pulse, Term, Vector, Wire, terms, texts};
use crate::text::same_text;

verus! {

/// The fields and the lowered expressions of a [`Context`], as terms.
pub ghost struct ContextView {
    pub clock: Term,
    pub lanes: usize,
    pub names: Seq<Seq<char>>,
    pub fields: Seq<Term>,
    /// Each lowered spelling, with the place and the term of its node.
    pub lowered: Map<Seq<char>, (int, Term)>,
}

impl ContextView {
    /// The expression `source` over the present fields.
    pub open spec fn formula(self, source: Seq<char>) -> Term {
        Term {
            op: Op::Formula(self.lanes),
            data: PayloadView::Formula { source, fields: self.names },
            inputs: seq![self.clock] + self.fields,
        }
    }

    /// What the spelling `source` stands for: what it was lowered to, or the
    /// expression over the present fields.
    pub open spec fn reading(self, source: Seq<char>) -> Term {
        if self.lowered.dom().contains(source) {
            self.lowered[source].1
        } else {
            self.formula(source)
        }
    }

    /// The context with a field registered, in the place of one of that name
    /// or behind the others.
    pub open spec fn with_field(self, name: Seq<char>, field: Term) -> ContextView {
        if exists|i: int| 0 <= i < self.names.len() && #[trigger] self.names[i] == name {
            let i = choose|i: int| 0 <= i < self.names.len() && #[trigger] self.names[i] == name;
            ContextView { fields: self.fields.update(i, field), ..self }
        } else {
            ContextView {
                names: self.names.push(name),
                fields: self.fields.push(field),
                ..self
            }
        }
    }
}

/// Maps each lowered spelling to the place and the term of its node.
pub open spec fn memo(lowered: Seq<(String, Wire<Vector>)>) -> Map<Seq<char>, (int, Term)>
    decreases lowered.len(),
{
    if lowered.len() == 0 {
        Map::empty()
    } else {
        let e = lowered.last();
        memo(lowered.drop_last()).insert(e.0@, (e.1.at(), e.1@))
    }
}

/// The fields an expression may read, and the expressions lowered so far.
pub struct Context {
    pub clock: Wire<Pulse>,
    pub lanes: usize,
    pub names: Vec<String>,
    pub fields: Vec<Wire<Vector>>,
    pub lowered: Vec<(String, Wire<Vector>)>,
}

impl View for Context {
    type V = ContextView;

    open spec fn view(&self) -> ContextView {
        ContextView {
            clock: self.clock@,
            lanes: self.lanes,
            names: texts(self.names@),
            fields: terms(self.fields@),
            lowered: memo(self.lowered@),
        }
    }
}

impl Context {
    /// Whether every field has a name, no field or spelling stands twice, and
    /// each lowered expression has a node of its own.
    pub open spec fn well_formed(self) -> bool {
        &&& self.names@.len() == self.fields@.len()
        &&& forall|i: int, j: int|
            #![trigger self.names@[i], self.names@[j]]
            0 <= i < j < self.names@.len() ==> self.names@[i]@ != self.names@[j]@
        &&& forall|i: int, j: int|
            #![trigger self.lowered@[i], self.lowered@[j]]
            0 <= i < j < self.lowered@.len() ==> self.lowered@[i].0@ != self.lowered@[j].0@
                && self.lowered@[i].1.at() < self.lowered@[j].1.at()
    }

    /// Whether the context is well formed and its wires belong to the graph.
    pub open spec fn belongs(self, b: Builder) -> bool {
        &&& self.well_formed()
        &&& b.has(self.clock)
        &&& forall|i: int| 0 <= i < self.fields@.len() ==> b.has(#[trigger] self.fields@[i])
        &&& forall|i: int| 0 <= i < self.lowered@.len() ==> b.has((#[trigger] self.lowered@[i]).1)
    }

    /// A context without fields, over so many lanes.
    pub fn new(clock: Wire<Pulse>, lanes: usize) -> (r: Context)
        ensures
            r@ == (ContextView {
                clock: clock@,
                lanes,
                names: Seq::empty(),
                fields: Seq::empty(),
                lowered: Map::empty(),
            }),
            forall|b: Builder| b.has(clock) ==> #[trigger] r.belongs(b),
    {
        let r = Context {
            clock,
            lanes,
            names: Vec::new(),
            fields: Vec::new(),
            lowered: Vec::new(),
        };
        assert(r@.names =~= Seq::empty());
        assert(r@.fields =~= Seq::empty());
        r
    }

    /// Registers a field, in the place of one of the same name.
    pub fn add_field(&mut self, name: &str, field: Wire<Vector>)
        requires
            old(self).well_formed(),
        ensures
            final(self).well_formed(),
            final(self)@ == old(self)@.with_field(name@, field@),
            forall|b: Builder|
                old(self).belongs(b) && b.has(field) ==> #[trigger] final(self).belongs(b),
    {
        let ghost names = texts(self.names@);
        let mut i: usize = 0;
        while i < self.names.len()
            invariant
                self == old(self),
                i <= self.names@.len(),
                self.well_formed(),
                names == texts(self.names@),
                forall|k: int| 0 <= k < i ==> (#[trigger] self.names@[k])@ != name@,
            decreases self.names@.len() - i,
        {
            if same_text(self.names[i].as_str(), name) {
                self.fields.set(i, field);
                proof {
                    assert(names[i as int] == name@);
                    let at = choose|j: int| 0 <= j < names.len() && #[trigger] names[j] == name@;
                    assert(self.names@[at]@ == name@);
                    assert(at == i);
                    assert(self@.fields =~= old(self)@.fields.update(i as int, field@));
                }
                return;
            }
            i += 1;
        }
        proof {
            assert forall|j: int| 0 <= j < names.len() implies #[trigger] names[j] != name@ by {
                assert(self.names@[j]@ != name@);
            }
        }
        self.names.push(name.to_string());
        self.fields.push(field);
        assert(self@.names =~= names.push(name@));
        assert(self@.fields =~= old(self)@.fields.push(field@));
    }

    /// Lowers an expression into the graph. A spelling that was lowered
    /// before gives the wire it gave then, and the graph stays as it is.
    pub fn lower_str(&mut self, b: &mut Builder, source: &str) -> (r: Wire<Vector>)
        requires
            old(b).ordered(),
            old(self).belongs(*old(b)),
        ensures
            final(b).grown(*old(b)),
            final(b).has(r),
            final(self).belongs(*final(b)),
            r@ == old(self)@.reading(source@),
            final(self)@ == (ContextView {
                lowered: old(self)@.lowered.insert(source@, (r.at(), r@)),
                ..old(self)@
            }),
            old(self)@.lowered.dom().contains(source@) ==> {
                &&& r.at() == old(self)@.lowered[source@].0
                &&& *final(b) == *old(b)
                &&& final(self)@ == old(self)@
            },
            !old(self)@.lowered.dom().contains(source@) ==> final(b).added(
                *old(b),
                r,
                old(self)@.formula(source@),
            ),
    {
        let mut i: usize = 0;
        while i < self.lowered.len()
            invariant
                self == old(self),
                *b == *old(b),
                b.ordered(),
                self.belongs(*b),
                i <= self.lowered@.len(),
                forall|k: int| 0 <= k < i ==> (#[trigger] self.lowered@[k]).0@ != source@,
            decreases self.lowered@.len() - i,
        {
            if same_text(self.lowered[i].0.as_str(), source) {
                let r = self.lowered[i].1;
                proof {
                    memo_finds(self.lowered@, i as int);
                    assert(self@.lowered.insert(source@, (r.at(), r@)) =~= self@.lowered);
                }
                return r;
            }
            i += 1;
        }
        proof {
            memo_misses(self.lowered@, source@);
        }
        let mut inputs: Vec<usize> = vec![self.clock.index()];
        let mut fields: Vec<String> = Vec::new();
        for k in 0..self.fields.len()
            invariant
                self == old(self),
                self.names@.len() == self.fields@.len(),
                inputs@.len() == k + 1,
                inputs@[0] == self.clock.at(),
                forall|j: int| 0 <= j < k ==> inputs@[j + 1] == (#[trigger] self.fields@[j]).at(),
                fields@.len() == k,
                forall|j: int| 0 <= j < k ==> #[trigger] fields@[j] == self.names@[j],
        {
            inputs.push(self.fields[k].index());
            fields.push(self.names[k].clone());
        }
        let ghost given = seq![self.clock@] + terms(self.fields@);
        proof {
            assert(fields@ =~= self.names@);
            assert forall|k: int| 0 <= k < given.len() implies b.binds(
                (#[trigger] inputs@[k]) as int,
                given[k],
            ) by {
                if k > 0 {
                    assert(b.has(self.fields@[k - 1]));
                    assert(inputs@[k - 1 + 1] == self.fields@[k - 1].at());
                }
            }
        }
        let r: Wire<Vector> = b.node(
            Op::Formula(self.lanes),
            Payload::Formula { source: source.to_string(), fields },
            inputs,
            Ghost(given),
        );
        proof {
            assert forall|k: int| 0 <= k < self.lowered@.len() implies (
            #[trigger] self.lowered@[k]).1.at() < r.at() by {
                old(b).wires_point_inside(self.lowered@[k].1);
            }
        }
        self.lowered.push((source.to_string(), r));
        proof {
            assert(self.lowered@.drop_last() =~= old(self).lowered@);
        }
        r
    }
}

/// Two spellings lowered to one node are the same.
pub(crate) proof fn places_tell_spellings(ctx: Context, s: Seq<char>, t: Seq<char>)
    requires
        ctx.well_formed(),
        ctx@.lowered.dom().contains(s),
        ctx@.lowered.dom().contains(t),
        ctx@.lowered[s].0 == ctx@.lowered[t].0,
    ensures
        s == t,
{
    let i = memo_place(ctx.lowered@, s);
    let j = memo_place(ctx.lowered@, t);
    memo_finds(ctx.lowered@, i);
    memo_finds(ctx.lowered@, j);
    if i < j {
        assert(ctx.lowered@[i].1.at() < ctx.lowered@[j].1.at());
    } else if j < i {
        assert(ctx.lowered@[j].1.at() < ctx.lowered@[i].1.at());
    }
}

proof fn memo_place(lowered: Seq<(String, Wire<Vector>)>, source: Seq<char>) -> (i: int)
    requires
        memo(lowered).dom().contains(source),
    ensures
        0 <= i < lowered.len(),
        lowered[i].0@ == source,
    decreases lowered.len(),
{
    if lowered.len() == 0 {
        0
    } else if lowered.last().0@ == source {
        lowered.len() - 1
    } else {
        memo_place(lowered.drop_last(), source)
    }
}

/// The nodes of a context's expressions are nodes of its graph.
pub(crate) proof fn lowered_inside(ctx: Context, b: Builder)
    requires
        ctx.belongs(b),
    ensures
        forall|s: Seq<char>| #[trigger]
            ctx@.lowered.dom().contains(s) ==> ctx@.lowered[s].0 < b.nodes().len(),
{
    assert forall|s: Seq<char>| #[trigger]
        ctx@.lowered.dom().contains(s) implies ctx@.lowered[s].0 < b.nodes().len() by {
        let i = memo_place(ctx.lowered@, s);
        memo_finds(ctx.lowered@, i);
        b.wires_point_inside(ctx.lowered@[i].1);
    }
}

proof fn memo_misses(lowered: Seq<(String, Wire<Vector>)>, source: Seq<char>)
    requires
        forall|k: int| 0 <= k < lowered.len() ==> (#[trigger] lowered[k]).0@ != source,
    ensures
        !memo(lowered).dom().contains(source),
    decreases lowered.len(),
{
    if lowered.len() > 0 {
        let rest = lowered.drop_last();
        assert forall|k: int| 0 <= k < rest.len() implies (#[trigger] rest[k]).0@ != source by {
            assert(rest[k] == lowered[k]);
        }
        memo_misses(rest, source);
        assert(lowered[lowered.len() - 1].0@ != source);
    }
}

proof fn memo_finds(lowered: Seq<(String, Wire<Vector>)>, i: int)
    requires
        0 <= i < lowered.len(),
        forall|i: int, j: int|
            #![trigger lowered[i], lowered[j]]
            0 <= i < j < lowered.len() ==> lowered[i].0@ != lowered[j].0@,
    ensures
        memo(lowered).dom().contains(lowered[i].0@),
        memo(lowered)[lowered[i].0@] == (lowered[i].1.at(), lowered[i].1@),
    decreases lowered.len(),
{
    if i < lowered.len() - 1 {
        let rest = lowered.drop_last();
        assert forall|i: int, j: int|
            #![trigger rest[i], rest[j]]
            0 <= i < j < rest.len() implies rest[i].0@ != rest[j].0@ by {
            assert(lowered[i].0@ != lowered[j].0@);
        }
        memo_finds(rest, i);
        assert(rest[i] == lowered[i]);
        assert(lowered[i].0@ != lowered[lowered.len() - 1].0@);
    }
}

/// Lowering an expression changes what no spelling stands for.
pub proof fn lowering_keeps_readings(v: ContextView, source: Seq<char>, at: int, other: Seq<char>)
    ensures
        ({
            let after = ContextView {
                lowered: v.lowered.insert(source, (at, v.reading(source))),
                ..v
            };
            after.reading(other) == v.reading(other)
        }),
{
}

/// Registering a field anew leaves the expressions lowered before as they
/// are.
pub proof fn a_field_keeps_lowered(v: ContextView, name: Seq<char>, field: Term, source: Seq<char>)
    requires
        v.lowered.dom().contains(source),
    ensures
        v.with_field(name, field).reading(source) == v.reading(source),
{
}

/// Whether a spelling lowered in `before` has the same wire in `after`.
pub open spec fn keeps_place(after: ContextView, before: ContextView, s: Seq<char>) -> bool {
    before.lowered.dom().contains(s) ==> after.lowered.dom().contains(s) && after.lowered[s]
        == before.lowered[s]
}

/// Whether `after` is `before` with expressions lowered: the same fields, the
/// same reading of every spelling, and every spelling lowered before at the
/// same place.
pub open spec fn extends(after: ContextView, before: ContextView) -> bool {
    &&& after.clock == before.clock
    &&& after.lanes == before.lanes
    &&& after.names == before.names
    &&& after.fields == before.fields
    &&& forall|s: Seq<char>| #[trigger] after.reading(s) == before.reading(s)
    &&& forall|s: Seq<char>| #[trigger] keeps_place(after, before, s)
}

/// Lowering more, and then more again, is lowering more.
pub(crate) proof fn extending_is_transitive(c: ContextView, b: ContextView, a: ContextView)
    requires
        extends(c, b),
        extends(b, a),
    ensures
        extends(c, a),
{
    assert forall|s: Seq<char>| #[trigger] c.reading(s) == a.reading(s) by {
        assert(b.reading(s) == a.reading(s));
    }
    assert forall|s: Seq<char>| #[trigger] keeps_place(c, a, s) by {
        assert(keeps_place(b, a, s));
        assert(keeps_place(c, b, s));
    }
}

/// What [`Context::lower_str`] does to a context extends it.
pub(crate) proof fn lowering_extends(v: ContextView, source: Seq<char>, at: int)
    requires
        v.lowered.dom().contains(source) ==> v.lowered[source].0 == at,
    ensures
        extends(
            ContextView { lowered: v.lowered.insert(source, (at, v.reading(source))), ..v },
            v,
        ),
{
    let after = ContextView { lowered: v.lowered.insert(source, (at, v.reading(source))), ..v };
    assert forall|s: Seq<char>| #[trigger] keeps_place(after, v, s) by {
        if s == source && v.lowered.dom().contains(s) {
            assert(v.lowered[s] == (at, v.reading(source)));
        }
    }
}

/// The named readings of a list of named formulas.
pub open spec fn readings(v: ContextView, list: Seq<(Seq<char>, Seq<char>)>) -> Seq<
    (Seq<char>, Term),
> {
    list.map_values(|f: (Seq<char>, Seq<char>)| (f.0, v.reading(f.1)))
}

/// Whether two contexts differ at most in where the nodes of their lowered
/// expressions stand.
pub open spec fn alike(a: ContextView, b: ContextView) -> bool {
    &&& a.clock == b.clock
    &&& a.lanes == b.lanes
    &&& a.names == b.names
    &&& a.fields == b.fields
    &&& a.lowered.dom() == b.lowered.dom()
    &&& forall|s: Seq<char>| #[trigger] a.reading(s) == b.reading(s)
}

/// The context with an expression lowered.
pub open spec fn with_lowered(v: ContextView, source: Seq<char>) -> ContextView {
    ContextView { lowered: v.lowered.insert(source, (0, v.reading(source))), ..v }
}

/// The context with the formulas of a list lowered, one after the other.
pub open spec fn with_all_lowered(v: ContextView, list: Seq<(Seq<char>, Seq<char>)>) -> ContextView
    decreases list.len(),
{
    if list.len() == 0 {
        v
    } else {
        with_lowered(with_all_lowered(v, list.drop_last()), list.last().1)
    }
}

/// Whether the entries stand where their formulas were lowered.
pub open spec fn placed(
    v: ContextView,
    list: Seq<(Seq<char>, Seq<char>)>,
    entries: Seq<(String, Wire<Vector>)>,
) -> bool {
    &&& entries.len() == list.len()
    &&& forall|i: int|
        0 <= i < list.len() ==> v.lowered.dom().contains((#[trigger] list[i]).1)
            && v.lowered[list[i].1].0 == entries[i].1.at()
}

/// Whether every expression that `before` had not lowered has its node from
/// place `from` on.
pub open spec fn beyond(after: ContextView, before: ContextView, from: int) -> bool {
    forall|s: Seq<char>| #[trigger]
        after.lowered.dom().contains(s) ==> after.lowered[s].0 >= from
            || before.lowered.dom().contains(s)
}

/// Lowering more, and then more again, puts nodes behind the first place.
pub(crate) proof fn beyond_is_transitive(
    c: ContextView,
    b: ContextView,
    a: ContextView,
    second: int,
    first: int,
)
    requires
        beyond(c, b, second),
        extends(c, b),
        beyond(b, a, first),
        first <= second,
    ensures
        beyond(c, a, first),
{
    assert forall|s: Seq<char>| #[trigger]
        c.lowered.dom().contains(s) implies c.lowered[s].0 >= first
        || a.lowered.dom().contains(s) by {
        if b.lowered.dom().contains(s) {
            assert(keeps_place(c, b, s));
        }
    }
}

/// Entries stay where their formulas were lowered.
pub(crate) proof fn places_stay(
    after: ContextView,
    before: ContextView,
    list: Seq<(Seq<char>, Seq<char>)>,
    entries: Seq<(String, Wire<Vector>)>,
)
    requires
        extends(after, before),
        placed(before, list, entries),
    ensures
        placed(after, list, entries),
{
    assert forall|i: int| 0 <= i < list.len() implies after.lowered.dom().contains(
        (#[trigger] list[i]).1,
    ) && after.lowered[list[i].1].0 == entries[i].1.at() by {
        assert(keeps_place(after, before, list[i].1));
    }
}

/// Contexts that are alike stay alike when both lower an expression.
pub(crate) proof fn alike_when_lowered(a: ContextView, b: ContextView, source: Seq<char>, at: int)
    requires
        alike(a, b),
    ensures
        alike(
            ContextView { lowered: a.lowered.insert(source, (at, a.reading(source))), ..a },
            with_lowered(b, source),
        ),
{
    let x = ContextView { lowered: a.lowered.insert(source, (at, a.reading(source))), ..a };
    let y = with_lowered(b, source);
    assert(x.lowered.dom() =~= y.lowered.dom());
    assert forall|s: Seq<char>| #[trigger] x.reading(s) == y.reading(s) by {
        assert(a.reading(s) == b.reading(s));
        assert(a.reading(source) == b.reading(source));
    }
}

/// Contexts that are alike stay alike when both register a field.
pub(crate) proof fn alike_with_field(a: ContextView, b: ContextView, name: Seq<char>, field: Term)
    requires
        alike(a, b),
    ensures
        alike(a.with_field(name, field), b.with_field(name, field)),
{
    let x = a.with_field(name, field);
    let y = b.with_field(name, field);
    assert forall|s: Seq<char>| #[trigger] x.reading(s) == y.reading(s) by {
        assert(a.reading(s) == b.reading(s));
        assert(x.names == y.names && x.fields == y.fields);
    }
}

/// Contexts that are alike give a list of formulas the same readings.
pub(crate) proof fn alike_readings(
    a: ContextView,
    b: ContextView,
    list: Seq<(Seq<char>, Seq<char>)>,
)
    requires
        alike(a, b),
    ensures
        readings(a, list) == readings(b, list),
{
    assert forall|i: int| 0 <= i < list.len() implies readings(a, list)[i] == readings(
        b,
        list,
    )[i] by {
        assert(a.reading(list[i].1) == b.reading(list[i].1));
    }
    assert(readings(a, list) =~= readings(b, list));
}

/// Being alike passes on.
pub(crate) proof fn alike_is_transitive(a: ContextView, b: ContextView, c: ContextView)
    requires
        alike(a, b),
        alike(b, c),
    ensures
        alike(a, c),
{
    assert forall|s: Seq<char>| #[trigger] a.reading(s) == c.reading(s) by {
        assert(b.reading(s) == c.reading(s));
    }
}

/// Contexts that are alike stay alike when both lower a list of formulas.
pub(crate) proof fn alike_when_all_lowered(
    a: ContextView,
    b: ContextView,
    list: Seq<(Seq<char>, Seq<char>)>,
)
    requires
        alike(a, b),
    ensures
        alike(with_all_lowered(a, list), with_all_lowered(b, list)),
    decreases list.len(),
{
    if list.len() > 0 {
        alike_when_all_lowered(a, b, list.drop_last());
        alike_when_lowered(
            with_all_lowered(a, list.drop_last()),
            with_all_lowered(b, list.drop_last()),
            list.last().1,
            0,
        );
    }
}

/// Lowers a list of named formulas.
pub fn lower_all(ctx: &mut Context, b: &mut Builder, list: &Vec<(String, String)>) -> (r: Vec<
    (String, Wire<Vector>),
>)
    requires
        old(b).ordered(),
        old(ctx).belongs(*old(b)),
    ensures
        final(b).grown(*old(b)),
        final(ctx).belongs(*final(b)),
        extends(final(ctx)@, old(ctx)@),
        alike(final(ctx)@, with_all_lowered(old(ctx)@, spelled(list@))),
        all_in(*final(b), r@),
        named(r@) == readings(old(ctx)@, spelled(list@)),
        placed(final(ctx)@, spelled(list@), r@),
        beyond(final(ctx)@, old(ctx)@, old(b).nodes().len() as int),
{
    let mut entries: Vec<(String, Wire<Vector>)> = Vec::new();
    let ghost v = ctx@;
    assert(spelled(list@).take(0) =~= seq![]);
    for i in 0..list.len()
        invariant
            v == old(ctx)@,
            b.grown(*old(b)),
            ctx.belongs(*b),
            extends(ctx@, v),
            alike(ctx@, with_all_lowered(v, spelled(list@).take(i as int))),
            beyond(ctx@, v, old(b).nodes().len() as int),
            all_in(*b, entries@),
            entries@.len() == i,
            forall|k: int|
                0 <= k < i ==> (#[trigger] entries@[k]).0@ == list@[k].0@ && entries@[k].1@
                    == v.reading(list@[k].1@),
            forall|k: int|
                0 <= k < i ==> ctx@.lowered.dom().contains((#[trigger] list@[k]).1@)
                    && ctx@.lowered[list@[k].1@].0 == entries@[k].1.at(),
    {
        let ghost before = ctx@;
        let h = ctx.lower_str(b, list[i].1.as_str());
        proof {
            assert(before.reading(list@[i as int].1@) == v.reading(list@[i as int].1@));
            lowering_extends(before, list@[i as int].1@, h.at());
            extending_is_transitive(ctx@, before, v);
            let done = spelled(list@).take(i as int);
            let more = spelled(list@).take(i + 1);
            assert(more.drop_last() =~= done);
            assert(more.last().1 == list@[i as int].1@);
            alike_when_lowered(before, with_all_lowered(v, done), list@[i as int].1@, h.at());
            assert forall|k: int| 0 <= k < i implies ctx@.lowered.dom().contains(
                (#[trigger] list@[k]).1@,
            ) && ctx@.lowered[list@[k].1@].0 == entries@[k].1.at() by {
                assert(keeps_place(ctx@, before, list@[k].1@));
            }
        }
        entries.push((list[i].0.clone(), h));
    }
    assert(named(entries@) =~= readings(v, spelled(list@)));
    assert(spelled(list@).take(list@.len() as int) =~= spelled(list@));
    proof {
        let l = spelled(list@);
        assert forall|i: int| 0 <= i < l.len() implies ctx@.lowered.dom().contains(
            (#[trigger] l[i]).1,
        ) && ctx@.lowered[l[i].1].0 == entries@[i].1.at() by {
            assert(l[i].1 == list@[i].1@);
        }
    }
    entries
}

/// Formulas of one spelling share a wire, whatever else has been lowered
/// since.
pub proof fn equal_spellings_share_a_wire(
    first: ContextView,
    second: ContextView,
    source: Seq<char>,
    a: int,
    b: int,
)
    requires
        first.lowered.dom().contains(source),
        first.lowered[source].0 == a,
        extends(second, first),
        second.lowered[source].0 == b,
    ensures
        a == b,
{
    assert(keeps_place(second, first, source));
}

/// Whether the fields of a context have names of their own.
pub open spec fn names_apart(v: ContextView) -> bool {
    &&& v.names.len() == v.fields.len()
    &&& forall|i: int, j: int|
        0 <= i < j < v.names.len() ==> #[trigger] v.names[i] != #[trigger] v.names[j]
}

/// Whether a context has a field under a name.
pub open spec fn holds(v: ContextView, name: Seq<char>, field: Term) -> bool {
    exists|i: int|
        0 <= i < v.names.len() && i < v.fields.len() && #[trigger] v.names[i] == name
            && v.fields[i] == field
}

pub(crate) proof fn a_field_is_held(v: ContextView, name: Seq<char>, field: Term)
    requires
        names_apart(v),
    ensures
        holds(v.with_field(name, field), name, field),
        names_apart(v.with_field(name, field)),
{
    let w = v.with_field(name, field);
    if exists|i: int| 0 <= i < v.names.len() && #[trigger] v.names[i] == name {
        let i = choose|i: int| 0 <= i < v.names.len() && #[trigger] v.names[i] == name;
        assert(w.names[i] == name && w.fields[i] == field);
    } else {
        let i = v.names.len() as int;
        assert(w.names[i] == name && w.fields[i] == field);
    }
}

pub(crate) proof fn other_fields_are_held(
    v: ContextView,
    name: Seq<char>,
    field: Term,
    other: Seq<char>,
    kept: Term,
)
    requires
        names_apart(v),
        name != other,
        holds(v, other, kept),
    ensures
        holds(v.with_field(name, field), other, kept),
{
    let w = v.with_field(name, field);
    let i = choose|i: int|
        0 <= i < v.names.len() && i < v.fields.len() && #[trigger] v.names[i] == other
            && v.fields[i] == kept;
    assert(w.names[i] == other && w.fields[i] == kept);
}

/// A formula reads each field under its own name, on the context's clock.
pub proof fn a_formula_reads_fields_by_name(v: ContextView, source: Seq<char>, i: int)
    requires
        0 <= i < v.fields.len(),
        v.names.len() == v.fields.len(),
    ensures
        ({
            let t = v.formula(source);
            &&& t.op == Op::Formula(v.lanes)
            &&& t.inputs.len() == v.fields.len() + 1
            &&& t.inputs[0] == v.clock
            &&& t.inputs[1 + i] == v.fields[i]
            &&& t.data matches PayloadView::Formula { source: read, fields } && read == source
                && fields.len() == v.names.len() && fields[i] == v.names[i]
        }),
{
}

} // verus!
