//! What the labels of variants promise: they are short when nothing is swept,
//! and tell the variants apart when something is.
use vstd::prelude::*;

use crate::double::Figure;
use crate::risk_model_compare::args::{
    Args, RiskModelKind, RiskShrinkageTargetKind, base_label, label_of, over_halflives, over_ranks,
    over_targets, over_windows, text_if, variants_of,
};
use crate::text::{decimal, digit, replace_all};

verus! {

/// Whether a text has no underscore.
pub open spec fn unbroken(text: Seq<char>) -> bool {
    forall|i: int| 0 <= i < text.len() ==> #[trigger] text[i] != '_'
}

/// Texts joined to something by an underscore and a tag are told apart by
/// what they were joined to and what follows the tag.
proof fn tagged_texts_are_told(
    p: Seq<char>,
    q: Seq<char>,
    tag: Seq<char>,
    u: Seq<char>,
    v: Seq<char>,
)
    requires
        tag.len() > 0,
        tag[0] == '_',
        unbroken(tag.skip(1)),
        unbroken(u),
        unbroken(v),
        p + (tag + u) == q + (tag + v),
    ensures
        p == q,
        u == v,
{
    let a = p + (tag + u);
    let b = q + (tag + v);
    assert(a.len() == b.len());
    assert(a[p.len() as int] == '_');
    assert(b[q.len() as int] == '_');
    if p.len() < q.len() {
        let i = q.len() - p.len();
        assert(a[q.len() as int] == (tag + u)[i]);
        if i < tag.len() {
            assert(tag.skip(1)[i - 1] == '_');
        } else {
            assert(u[i - tag.len()] == '_');
        }
    } else if q.len() < p.len() {
        let i = p.len() - q.len();
        assert(b[p.len() as int] == (tag + v)[i]);
        if i < tag.len() {
            assert(tag.skip(1)[i - 1] == '_');
        } else {
            assert(v[i - tag.len()] == '_');
        }
    }
    assert(p.len() == q.len());
    assert forall|i: int| 0 <= i < p.len() implies p[i] == q[i] by {
        assert(a[i] == b[i]);
    }
    assert(p =~= q);
    assert(u.len() == v.len());
    assert forall|i: int| 0 <= i < u.len() implies u[i] == v[i] by {
        assert(a[p.len() + tag.len() + i] == u[i]);
        assert(b[q.len() + tag.len() + i] == v[i]);
    }
    assert(u =~= v);
}

proof fn digits_are_unbroken(n: nat)
    ensures
        unbroken(decimal(n)),
        decimal(n).len() > 0,
    decreases n,
{
    assert forall|d: int| 0 <= d < 10 implies #[trigger] digit(d) != '_' by {
        assert((48 + d) as char as int == 48 + d);
    }
    if n >= 10 {
        digits_are_unbroken(n / 10);
        assert(digit((n % 10) as int) != '_');
    } else {
        assert(digit(n as int) != '_');
    }
}

/// Numbers written alike are the same.
pub proof fn a_numeral_has_one_number(a: nat, b: nat)
    requires
        decimal(a) == decimal(b),
    ensures
        a == b,
    decreases a,
{
    digits_are_unbroken(a / 10);
    digits_are_unbroken(b / 10);
    assert forall|d: int| 0 <= d < 10 implies (#[trigger] digit(d)) as int == 48 + d by {
        assert((48 + d) as char as int == 48 + d);
    }
    assert(decimal(a).last() == decimal(b).last());
    if a < 10 {
        if b >= 10 {
            assert(decimal(b).len() > 1);
        } else {
            assert(decimal(a).last() == digit(a as int));
            assert(decimal(b).last() == digit(b as int));
            assert(digit(a as int) as int == digit(b as int) as int);
        }
    } else {
        if b < 10 {
            assert(decimal(a).len() > 1);
        } else {
            assert(decimal(a).drop_last() =~= decimal(a / 10));
            assert(decimal(b).drop_last() =~= decimal(b / 10));
            a_numeral_has_one_number(a / 10, b / 10);
            assert(decimal(a).last() == digit((a % 10) as int));
            assert(decimal(b).last() == digit((b % 10) as int));
            assert(digit((a % 10) as int) as int == digit((b % 10) as int) as int);
        }
    }
}

/// Replacing one character by another keeps the length.
proof fn replacing_keeps_length(s: Seq<char>, a: Seq<char>, b: Seq<char>)
    requires
        a.len() == 1,
        b.len() == 1,
    ensures
        replace_all(s, a, b).len() == s.len(),
    decreases s.len(),
{
    if s.len() >= 1 {
        replacing_keeps_length(s.skip(1), a, b);
    }
}

/// The targets differ in the lengths of their names.
proof fn names_differ_in_length(a: RiskShrinkageTargetKind, b: RiskShrinkageTargetKind)
    requires
        a.named()@.len() == b.named()@.len(),
    ensures
        a == b,
{
    reveal_strlit("none");
    reveal_strlit("diagonal");
    reveal_strlit("constant-correlation");
    reveal_strlit("common-covariance");
    reveal_strlit("single-index");
}

/// The target of a shrinkage model, or none.
pub open spec fn target_name(target: Option<RiskShrinkageTargetKind>) -> Option<&'static str> {
    match target {
        None => None,
        Some(kind) => Some(kind.named()),
    }
}

proof fn bases_are_told(
    a: Option<RiskShrinkageTargetKind>,
    b: Option<RiskShrinkageTargetKind>,
)
    requires
        base_label(target_name(a)) == base_label(target_name(b)),
    ensures
        a == b,
{
    reveal_strlit("factor_model");
    reveal_strlit("shrinkage_");
    reveal_strlit("-");
    reveal_strlit("_");
    let x = base_label(target_name(a));
    let y = base_label(target_name(b));
    assert(x[0] == y[0]);
    if a is Some && b is Some {
        replacing_keeps_length(a->0.named()@, "-"@, "_"@);
        replacing_keeps_length(b->0.named()@, "-"@, "_"@);
        assert(x.len() == y.len());
        names_differ_in_length(a->0, b->0);
    }
}

/// One step of reading a label from its end: a dimension that is swept, or
/// left out, on both sides alike.
proof fn dimension_is_told(
    wanted: bool,
    tag: Seq<char>,
    p: Seq<char>,
    q: Seq<char>,
    u: Seq<char>,
    v: Seq<char>,
)
    requires
        tag.len() > 0,
        tag[0] == '_',
        unbroken(tag.skip(1)),
        unbroken(u),
        unbroken(v),
        p + text_if(wanted, tag + u) == q + text_if(wanted, tag + v),
    ensures
        p == q,
        wanted ==> u == v,
{
    if wanted {
        tagged_texts_are_told(p, q, tag, u, v);
    } else {
        assert(p + seq![] =~= p);
        assert(q + seq![] =~= q);
    }
}

/// A label tells its variant: two variants of a run with the same label have
/// the same target and, in every dimension that is swept, the same value,
/// provided that the halflives are written without underscores. The rank and
/// the window count only for the shrinkage model.
pub proof fn a_label_tells_its_variant(
    args: Args,
    a: Option<RiskShrinkageTargetKind>,
    b: Option<RiskShrinkageTargetKind>,
    rank_a: usize,
    rank_b: usize,
    window_a: usize,
    window_b: usize,
    ch_a: Figure,
    ch_b: Figure,
    sh_a: Figure,
    sh_b: Figure,
)
    requires
        unbroken(ch_a.text@),
        unbroken(ch_b.text@),
        unbroken(sh_a.text@),
        unbroken(sh_b.text@),
        label_of(args, target_name(a), rank_a, window_a, ch_a, sh_a) == label_of(
            args,
            target_name(b),
            rank_b,
            window_b,
            ch_b,
            sh_b,
        ),
    ensures
        a == b,
        a is Some && args.risk_rank@.len() > 1 ==> rank_a == rank_b,
        a is Some && args.risk_window@.len() > 1 ==> window_a == window_b,
        args.covariance_halflife@.len() > 1 ==> ch_a.text@ == ch_b.text@,
        args.specific_halflife@.len() > 1 ==> sh_a.text@ == sh_b.text@,
{
    reveal_strlit("_r");
    reveal_strlit("_w");
    reveal_strlit("_ch");
    reveal_strlit("_sh");
    reveal_strlit("factor_model");
    reveal_strlit("shrinkage_");
    assert(base_label(target_name(a)).len() > 0 && base_label(target_name(b)).len() > 0);
    assert(base_label(target_name(a))[0] == label_of(
        args,
        target_name(a),
        rank_a,
        window_a,
        ch_a,
        sh_a,
    )[0]);
    assert(base_label(target_name(b))[0] == label_of(
        args,
        target_name(b),
        rank_b,
        window_b,
        ch_b,
        sh_b,
    )[0]);
    assert(a is Some <==> b is Some);
    let swept_r = a is Some && args.risk_rank@.len() > 1;
    let swept_w = a is Some && args.risk_window@.len() > 1;
    let swept_c = args.covariance_halflife@.len() > 1;
    let swept_s = args.specific_halflife@.len() > 1;
    let a1 = base_label(target_name(a)) + text_if(swept_r, "_r"@ + decimal(rank_a as nat));
    let b1 = base_label(target_name(b)) + text_if(swept_r, "_r"@ + decimal(rank_b as nat));
    let a2 = a1 + text_if(swept_w, "_w"@ + decimal(window_a as nat));
    let b2 = b1 + text_if(swept_w, "_w"@ + decimal(window_b as nat));
    let a3 = a2 + text_if(swept_c, "_ch"@ + ch_a.text@);
    let b3 = b2 + text_if(swept_c, "_ch"@ + ch_b.text@);
    dimension_is_told(swept_s, "_sh"@, a3, b3, sh_a.text@, sh_b.text@);
    dimension_is_told(swept_c, "_ch"@, a2, b2, ch_a.text@, ch_b.text@);
    digits_are_unbroken(window_a as nat);
    digits_are_unbroken(window_b as nat);
    dimension_is_told(
        swept_w,
        "_w"@,
        a1,
        b1,
        decimal(window_a as nat),
        decimal(window_b as nat),
    );
    digits_are_unbroken(rank_a as nat);
    digits_are_unbroken(rank_b as nat);
    dimension_is_told(
        swept_r,
        "_r"@,
        base_label(target_name(a)),
        base_label(target_name(b)),
        decimal(rank_a as nat),
        decimal(rank_b as nat),
    );
    bases_are_told(a, b);
    if swept_r {
        a_numeral_has_one_number(rank_a as nat, rank_b as nat);
    }
    if swept_w {
        a_numeral_has_one_number(window_a as nat, window_b as nat);
    }
}

/// A dimension appears in the label only when it is swept: a run without a
/// sweep labels a variant by its model and target alone.
pub proof fn single_runs_keep_short_labels(
    args: Args,
    target: Option<&'static str>,
    rank: usize,
    window: usize,
    ch: Figure,
    sh: Figure,
)
    requires
        args.risk_rank@.len() <= 1,
        args.risk_window@.len() <= 1,
        args.covariance_halflife@.len() <= 1,
        args.specific_halflife@.len() <= 1,
    ensures
        label_of(args, target, rank, window, ch, sh) == base_label(target),
{
    assert(label_of(args, target, rank, window, ch, sh) =~= base_label(target));
}

proof fn halflives_are_counted(
    args: Args,
    target: Option<&'static str>,
    rank: usize,
    window: usize,
    n: int,
)
    requires
        n >= 0,
    ensures
        over_halflives(args, target, rank, window, n).len() == n * args.specific_halflife@.len(),
    decreases n,
{
    let s = args.specific_halflife@.len() as int;
    if n > 0 {
        halflives_are_counted(args, target, rank, window, n - 1);
        assert((n - 1) * s + s == n * s) by (nonlinear_arith);
    } else {
        assert(n * s == 0) by (nonlinear_arith)
            requires
                n == 0,
        ;
    }
}

proof fn windows_are_counted(args: Args, target: Option<&'static str>, rank: usize, n: int)
    requires
        n >= 0,
    ensures
        over_windows(args, target, rank, n).len() == n * (args.covariance_halflife@.len()
            * args.specific_halflife@.len()),
    decreases n,
{
    let c = args.covariance_halflife@.len() as int;
    let each = c * args.specific_halflife@.len();
    if n > 0 {
        windows_are_counted(args, target, rank, n - 1);
        halflives_are_counted(args, target, rank, args.risk_window@[n - 1], c);
        assert((n - 1) * each + each == n * each) by (nonlinear_arith);
    } else {
        assert(n * each == 0) by (nonlinear_arith)
            requires
                n == 0,
        ;
    }
}

proof fn ranks_are_counted(args: Args, target: Option<&'static str>, n: int)
    requires
        n >= 0,
    ensures
        over_ranks(args, target, n).len() == n * (args.risk_window@.len() * (
        args.covariance_halflife@.len() * args.specific_halflife@.len())),
    decreases n,
{
    let w = args.risk_window@.len() as int;
    let each = w * (args.covariance_halflife@.len() * args.specific_halflife@.len());
    if n > 0 {
        ranks_are_counted(args, target, n - 1);
        windows_are_counted(args, target, args.risk_rank@[n - 1], w);
        assert((n - 1) * each + each == n * each) by (nonlinear_arith);
    } else {
        assert(n * each == 0) by (nonlinear_arith)
            requires
                n == 0,
        ;
    }
}

proof fn targets_are_counted(args: Args, n: int)
    requires
        n >= 0,
    ensures
        over_targets(args, n).len() == n * (args.risk_rank@.len() * (args.risk_window@.len() * (
        args.covariance_halflife@.len() * args.specific_halflife@.len()))),
    decreases n,
{
    let r = args.risk_rank@.len() as int;
    let each = r * (args.risk_window@.len() * (args.covariance_halflife@.len()
        * args.specific_halflife@.len()));
    if n > 0 {
        targets_are_counted(args, n - 1);
        ranks_are_counted(args, Some(args.risk_shrinkage_targets@[n - 1].named()), r);
        assert((n - 1) * each + each == n * each) by (nonlinear_arith);
    } else {
        assert(n * each == 0) by (nonlinear_arith)
            requires
                n == 0,
        ;
    }
}

/// The factor model has one variant per pair of halflives; the shrinkage
/// model one per target, rank, window and pair of halflives.
pub proof fn variants_are_counted(args: Args)
    ensures
        variants_of(args, RiskModelKind::FactorModel).len() == args.covariance_halflife@.len()
            * args.specific_halflife@.len(),
        variants_of(args, RiskModelKind::Shrinkage).len() == args.risk_shrinkage_targets@.len() * (
        args.risk_rank@.len() * (args.risk_window@.len() * (args.covariance_halflife@.len()
            * args.specific_halflife@.len()))),
{
    halflives_are_counted(args, None, 0, 0, args.covariance_halflife@.len() as int);
    targets_are_counted(args, args.risk_shrinkage_targets@.len() as int);
}

} // verus!
