//! Text as sequences of characters: decimal numerals, substitution into
//! templates, dotted names and the order of texts.
use vstd::prelude::*;

verus! {

/// `String::push` puts one character at the end of the text.
pub assume_specification[ String::push ](s: &mut String, c: char)
    ensures
        final(s)@ == old(s)@.push(c),
;

/// How `{:?}` writes a text: in double quotes, with escapes.
pub uninterp spec fn debug_form(text: Seq<char>) -> Seq<char>;

/// Calls the `Debug` formatting of `str`. Its result is named
/// [`debug_form`]; which characters it escapes, and how, is not told.
#[verifier::external_body]
pub(crate) fn debug_text(s: &str) -> (r: String)
    ensures
        r@ == debug_form(s@),
{
    format!("{:?}", s)
}

/// The characters of `s`, as a vector.
pub fn chars_of(s: &str) -> (r: Vec<char>)
    ensures
        r@ == s@,
{
    let mut out: Vec<char> = Vec::new();
    for c in it: s.chars()
        invariant
            out@ == it.seq().take(it.index() as int),
            it.seq() == s@,
    {
        out.push(c);
    }
    out
}

/// The text of the characters `v[from..to]`.
pub fn text_of(v: &Vec<char>, from: usize, to: usize) -> (r: String)
    requires
        from <= to <= v.len(),
    ensures
        r@ == v@.subrange(from as int, to as int),
{
    let mut out = String::new();
    let mut i: usize = from;
    while i < to
        invariant
            from <= i <= to <= v.len(),
            out@ == v@.subrange(from as int, i as int),
        decreases to - i,
    {
        out.push(v[i]);
        i += 1;
    }
    out
}

/// Whether the two texts hold the same characters.
pub fn same_text(a: &str, b: &str) -> (r: bool)
    ensures
        r == (a@ == b@),
{
    a.to_owned() == b.to_owned()
}

/// The character of the decimal digit `d`.
pub open spec fn digit(d: int) -> char {
    (48 + d) as char
}

/// The decimal numeral of `n`, without leading zeros.
pub open spec fn decimal(n: nat) -> Seq<char>
    decreases n,
{
    if n < 10 {
        seq![digit(n as int)]
    } else {
        decimal(n / 10).push(digit((n % 10) as int))
    }
}

/// Writes `n` in decimal.
pub fn decimal_text(n: usize) -> (r: String)
    ensures
        r@ == decimal(n as nat),
    decreases n,
{
    let mut out = if n < 10 {
        String::new()
    } else {
        decimal_text(n / 10)
    };
    let d: u8 = (n % 10) as u8;
    out.push((48 + d) as char);
    assert(n < 10 ==> out@ =~= seq![digit(n as int)]);
    out
}

/// `s` with every occurrence of `pattern` replaced by `with`, the occurrences
/// taken from the left without overlap.
pub open spec fn replace_all(s: Seq<char>, pattern: Seq<char>, with: Seq<char>) -> Seq<char>
    decreases s.len(),
{
    if pattern.len() == 0 || s.len() < pattern.len() {
        s
    } else if s.take(pattern.len() as int) == pattern {
        with + replace_all(s.skip(pattern.len() as int), pattern, with)
    } else {
        seq![s[0]] + replace_all(s.skip(1), pattern, with)
    }
}

/// Whether `pattern` stands in `s` at position `at`.
fn stands_at(s: &Vec<char>, pattern: &Vec<char>, at: usize) -> (r: bool)
    requires
        at + pattern.len() <= s.len(),
    ensures
        r == (s@.skip(at as int).take(pattern.len() as int) == pattern@),
{
    let mut k: usize = 0;
    while k < pattern.len()
        invariant
            k <= pattern.len(),
            at + pattern.len() <= s.len(),
            forall|j: int| 0 <= j < k ==> s@[at + j] == #[trigger] pattern@[j],
        decreases pattern.len() - k,
    {
        if s[at + k] != pattern[k] {
            assert(s@.skip(at as int).take(pattern.len() as int)[k as int] != pattern@[k as int]);
            return false;
        }
        k += 1;
    }
    assert(s@.skip(at as int).take(pattern.len() as int) =~= pattern@);
    true
}

/// Substitutes `with` for every occurrence of `pattern` in `s`.
pub fn replace(s: &str, pattern: &str, with: &str) -> (r: String)
    requires
        pattern@.len() > 0,
    ensures
        r@ == replace_all(s@, pattern@, with@),
{
    let text = chars_of(s);
    let pat = chars_of(pattern);
    let mut out = String::new();
    let mut i: usize = 0;
    assert(text@.skip(0) =~= text@);
    while pat.len() <= text.len() - i
        invariant
            i <= text.len(),
            pat@ == pattern@,
            pat@.len() > 0,
            text@ == s@,
            out@ + replace_all(text@.skip(i as int), pat@, with@) == replace_all(
                s@,
                pattern@,
                with@,
            ),
        decreases text.len() - i,
    {
        let ghost rest = text@.skip(i as int);
        if stands_at(&text, &pat, i) {
            assert(text@.skip(i + pat@.len()) =~= rest.skip(pat@.len() as int));
            assert(out@ + (with@ + replace_all(rest.skip(pat@.len() as int), pat@, with@)) =~= out@
                + with@ + replace_all(rest.skip(pat@.len() as int), pat@, with@));
            out.append(with);
            i += pat.len();
        } else {
            assert(text@.skip(i + 1) =~= rest.skip(1));
            assert(out@ + (seq![rest[0]] + replace_all(rest.skip(1), pat@, with@)) =~= out@.push(
                rest[0],
            ) + replace_all(rest.skip(1), pat@, with@));
            out.push(text[i]);
            i += 1;
        }
    }
    let tail = text_of(&text, i, text.len());
    assert(tail@ =~= text@.skip(i as int));
    out.append(tail.as_str());
    out
}

/// The first segment of a dotted name: what stands before the first dot, or
/// the whole name when it holds none.
pub open spec fn first_segment(name: Seq<char>) -> Seq<char>
    decreases name.len(),
{
    if name.len() == 0 || name[0] == '.' {
        Seq::empty()
    } else {
        seq![name[0]] + first_segment(name.skip(1))
    }
}

/// A name that starts with a text without dots, and then a dot, has that text
/// for its first segment.
pub proof fn first_segment_is(name: Seq<char>, segment: Seq<char>)
    requires
        segment.len() < name.len(),
        name[segment.len() as int] == '.',
        forall|i: int|
            0 <= i < segment.len() ==> #[trigger] segment[i] == name[i] && segment[i] != '.',
    ensures
        first_segment(name) == segment,
    decreases segment.len(),
{
    if segment.len() == 0 {
        assert(segment =~= first_segment(name));
    } else {
        let rest = segment.skip(1);
        let after = name.skip(1);
        assert forall|i: int| 0 <= i < rest.len() implies #[trigger] rest[i] == after[i]
            && rest[i] != '.' by {
            assert(rest[i] == segment[i + 1]);
        }
        first_segment_is(after, rest);
        assert(segment[0] == name[0]);
        assert(segment =~= seq![name[0]] + rest);
    }
}

/// The first segment of a dotted name.
pub fn segment_of(name: &str) -> (r: String)
    ensures
        r@ == first_segment(name@),
{
    let v = chars_of(name);
    let mut i: usize = 0;
    assert(v@.skip(0) =~= v@);
    assert(v@.take(0) + first_segment(v@) =~= first_segment(v@));
    while i < v.len() && v[i] != '.'
        invariant
            i <= v.len(),
            v@ == name@,
            v@.take(i as int) + first_segment(v@.skip(i as int)) == first_segment(name@),
        decreases v.len() - i,
    {
        let ghost rest = v@.skip(i as int);
        assert(rest.skip(1) =~= v@.skip(i + 1));
        assert(v@.take(i as int) + (seq![rest[0]] + first_segment(rest.skip(1))) =~= v@.take(i + 1)
            + first_segment(rest.skip(1)));
        i += 1;
    }
    assert(first_segment(v@.skip(i as int)) =~= Seq::<char>::empty());
    assert(v@.take(i as int) + Seq::<char>::empty() =~= v@.subrange(0, i as int));
    text_of(&v, 0, i)
}

/// Whether `a` comes before `b` in the order of texts: the first character in
/// which they differ decides by its code point, and a proper prefix comes
/// first.
pub open spec fn before(a: Seq<char>, b: Seq<char>) -> bool
    decreases a.len(),
{
    if b.len() == 0 {
        false
    } else if a.len() == 0 {
        true
    } else if a[0] == b[0] {
        before(a.skip(1), b.skip(1))
    } else {
        (a[0] as int) < (b[0] as int)
    }
}

/// Compares two texts in the order of texts.
pub fn comes_before(a: &str, b: &str) -> (r: bool)
    ensures
        r == before(a@, b@),
{
    let x = chars_of(a);
    let y = chars_of(b);
    let mut i: usize = 0;
    assert(x@.skip(0) =~= x@);
    assert(y@.skip(0) =~= y@);
    while i < x.len() && i < y.len() && x[i] == y[i]
        invariant
            i <= x.len(),
            i <= y.len(),
            x@ == a@,
            y@ == b@,
            before(x@.skip(i as int), y@.skip(i as int)) == before(a@, b@),
        decreases x.len() - i,
    {
        assert(x@.skip(i as int).skip(1) =~= x@.skip(i + 1));
        assert(y@.skip(i as int).skip(1) =~= y@.skip(i + 1));
        i += 1;
    }
    if i == y.len() {
        return false;
    }
    if i == x.len() {
        return true;
    }
    let p: char = x[i];
    let q: char = y[i];
    p < q
}

/// The order of texts is strict: of two texts one comes before the other
/// exactly when they differ, and never both.
pub proof fn before_is_strict(a: Seq<char>, b: Seq<char>)
    ensures
        a == b ==> !before(a, b),
        a != b ==> (before(a, b) <==> !before(b, a)),
    decreases a.len(),
{
    if a.len() == 0 || b.len() == 0 {
        if a.len() == 0 && b.len() == 0 {
            assert(a =~= b);
        }
    } else if a[0] == b[0] {
        before_is_strict(a.skip(1), b.skip(1));
        if a.skip(1) == b.skip(1) {
            assert(a =~= seq![a[0]] + a.skip(1));
            assert(b =~= seq![b[0]] + b.skip(1));
        }
    }
}

/// The order of texts is transitive.
pub proof fn before_is_transitive(a: Seq<char>, b: Seq<char>, c: Seq<char>)
    requires
        before(a, b),
        before(b, c),
    ensures
        before(a, c),
    decreases a.len(),
{
    if a.len() > 0 && a[0] == b[0] && b[0] == c[0] {
        before_is_transitive(a.skip(1), b.skip(1), c.skip(1));
    }
}

/// What a numeral says: each digit counts ten times the next.
pub open spec fn told_by(numeral: Seq<char>) -> int
    decreases numeral.len(),
{
    if numeral.len() == 0 {
        0
    } else {
        10 * told_by(numeral.drop_last()) + (numeral.last() as int - 48)
    }
}

/// A numeral says its number, in digits alone and without a leading zero.
pub proof fn a_numeral_says_its_number(n: nat)
    ensures
        told_by(decimal(n)) == n,
        decimal(n).len() > 0,
        decimal(n)[0] == '0' ==> n == 0 && decimal(n).len() == 1,
        forall|i: int| 0 <= i < decimal(n).len() ==> '0' <= #[trigger] decimal(n)[i] <= '9',
    decreases n,
{
    let last = if n < 10 {
        n as int
    } else {
        (n % 10) as int
    };
    assert((48 + last) as char as int == 48 + last);
    assert(decimal(n).last() == digit(last));
    if n < 10 {
        assert(decimal(n).drop_last() =~= Seq::<char>::empty());
        assert(told_by(Seq::<char>::empty()) == 0);
    } else {
        a_numeral_says_its_number(n / 10);
        assert(decimal(n).drop_last() =~= decimal(n / 10));
        assert(decimal(n)[0] == decimal(n / 10)[0]);
    }
}

/// The first difference of two texts decides their order, and a text comes
/// before those that go on from it.
pub proof fn the_first_difference_decides(a: Seq<char>, b: Seq<char>, k: int)
    requires
        0 <= k <= a.len(),
        k < b.len(),
        forall|i: int| 0 <= i < k ==> #[trigger] a[i] == b[i],
        k < a.len() ==> a[k] as int != b[k] as int,
    ensures
        before(a, b) <==> (k == a.len() || (a[k] as int) < (b[k] as int)),
    decreases k,
{
    if k > 0 {
        assert(a[0] == b[0]);
        assert forall|i: int| 0 <= i < k - 1 implies #[trigger] a.skip(1)[i] == b.skip(1)[i] by {
            assert(a[i + 1] == b[i + 1]);
        }
        the_first_difference_decides(a.skip(1), b.skip(1), k - 1);
    }
}

/// Whether the pattern stands in a text at a place.
pub open spec fn stands(s: Seq<char>, pattern: Seq<char>, at: int) -> bool {
    &&& 0 <= at <= s.len() - pattern.len()
    &&& s.subrange(at, at + pattern.len()) == pattern
}

/// Replacing starts at the first place where the pattern stands: what comes
/// before is kept, the pattern gives way, and the rest is replaced alike.
pub proof fn the_first_occurrence_is_replaced(
    s: Seq<char>,
    pattern: Seq<char>,
    with: Seq<char>,
    at: int,
)
    requires
        pattern.len() > 0,
        stands(s, pattern, at),
        forall|i: int| 0 <= i < at ==> !#[trigger] stands(s, pattern, i),
    ensures
        replace_all(s, pattern, with) == s.take(at) + with + replace_all(
            s.skip(at + pattern.len()),
            pattern,
            with,
        ),
    decreases at,
{
    let n = pattern.len() as int;
    assert(s.take(n) =~= s.subrange(0, n));
    if at == 0 {
        assert(s.take(0) + with =~= with);
    } else {
        let rest = s.skip(1);
        assert(!stands(s, pattern, 0));
        assert(rest.subrange(at - 1, at - 1 + n) =~= s.subrange(at, at + n));
        assert forall|i: int| 0 <= i < at - 1 implies !#[trigger] stands(rest, pattern, i) by {
            assert(rest.subrange(i, i + n) =~= s.subrange(i + 1, i + 1 + n));
            assert(!stands(s, pattern, i + 1));
        }
        the_first_occurrence_is_replaced(rest, pattern, with, at - 1);
        assert(rest.skip(at - 1 + n) =~= s.skip(at + n));
        let tail = replace_all(s.skip(at + n), pattern, with);
        assert(seq![s[0]] + (rest.take(at - 1) + with + tail) =~= s.take(at) + with + tail);
    }
}

/// A text in which the pattern stands nowhere is kept.
pub proof fn nothing_else_is_replaced(s: Seq<char>, pattern: Seq<char>, with: Seq<char>)
    requires
        forall|i: int| 0 <= i < s.len() ==> !#[trigger] stands(s, pattern, i),
    ensures
        replace_all(s, pattern, with) == s,
    decreases s.len(),
{
    let n = pattern.len() as int;
    if n > 0 && s.len() >= n {
        let rest = s.skip(1);
        assert(s.take(n) =~= s.subrange(0, n));
        assert(!stands(s, pattern, 0));
        assert forall|i: int| 0 <= i < rest.len() implies !#[trigger] stands(rest, pattern, i) by {
            if i <= rest.len() - n {
                assert(rest.subrange(i, i + n) =~= s.subrange(i + 1, i + 1 + n));
                assert(!stands(s, pattern, i + 1));
            }
        }
        nothing_else_is_replaced(rest, pattern, with);
        assert(seq![s[0]] + rest =~= s);
    }
}

} // verus!
