//! What the comparison of risk models is asked to do, and the variants that
//! it evaluates.
use vstd::prelude::*;

use crate::double::{Double, Figure};
use crate::features::sets::RiskFeatureSet;
use crate::plans::{resolve_universe_size, universe_size};
use crate::text::{decimal, decimal_text, replace, replace_all};
use crate::time::{
    Instant, MAX_DAYS, calendar_told, day_calendar, days_earlier, ends_anyway, horizon, listed,
    present_calendar, rebalances, warm_up_from,
};

verus! {

/// The selectable covariance predictors.
#[derive(Clone, Copy, Debug, PartialEq, Eq, Structural)]
pub enum RiskModelKind {
    /// The incremental factor model: regresses returns on the risk panel
    /// cross-sectionally.
    FactorModel,
    /// The shrinkage estimator: a sample covariance over the last samples,
    /// shrunk towards each of the targets (one variant per target) and
    /// truncated to its top eigenpairs. It ignores the risk panel.
    Shrinkage,
}

/// The selectable targets of the shrinkage risk model.
#[derive(Clone, Copy, Debug, PartialEq, Eq, Structural)]
pub enum RiskShrinkageTargetKind {
    /// No shrinkage.
    Unshrunk,
    /// The diagonal of the sample covariance: correlations shrink towards
    /// zero, variances are kept.
    Diagonal,
    /// Constant correlation: correlations shrink towards their
    /// cross-sectional mean, variances are kept.
    ConstantCorrelation,
    /// Common covariance: correlations and variances all shrink towards
    /// their cross-sectional means.
    CommonCovariance,
    /// Single index: correlations shrink towards a one-factor market model,
    /// variances are kept.
    SingleIndex,
}

impl RiskShrinkageTargetKind {
    /// The name of the target.
    pub open spec fn named(self) -> &'static str {
        match self {
            RiskShrinkageTargetKind::Unshrunk => "none",
            RiskShrinkageTargetKind::Diagonal => "diagonal",
            RiskShrinkageTargetKind::ConstantCorrelation => "constant-correlation",
            RiskShrinkageTargetKind::CommonCovariance => "common-covariance",
            RiskShrinkageTargetKind::SingleIndex => "single-index",
        }
    }

    /// The name of the target, as the shrinkage risk model knows it.
    pub fn name(self) -> (r: &'static str)
        ensures
            r == self.named(),
    {
        match self {
            RiskShrinkageTargetKind::Unshrunk => "none",
            RiskShrinkageTargetKind::Diagonal => "diagonal",
            RiskShrinkageTargetKind::ConstantCorrelation => "constant-correlation",
            RiskShrinkageTargetKind::CommonCovariance => "common-covariance",
            RiskShrinkageTargetKind::SingleIndex => "single-index",
        }
    }
}

/// The comparison's settings.
#[derive(Debug)]
pub struct Args {
    /// Directory of the market panels.
    pub data_dir: String,
    /// Directory of the Python operator modules.
    pub python_ops_dir: String,
    /// Path of the table of daily metrics to write.
    pub output: String,
    /// First date to evaluate; also the anchor of the rebalance calendar.
    pub start: Instant,
    /// First date not to evaluate.
    pub end: Option<Instant>,
    /// Calendar days of data read before `start`.
    pub warmup_days: usize,
    /// Calendar days between two predictions.
    pub rebalance_every: usize,
    /// Number of stocks in the tradable universe, zero for the whole market.
    pub universe_size: usize,
    pub risk_feature_sets: Vec<RiskFeatureSet>,
    /// Sampling periods a stock needs before a model predicts.
    pub min_periods: usize,
    /// The models to evaluate.
    pub risk_models: Vec<RiskModelKind>,
    /// Eigenpairs that the shrinkage model keeps, one variant each.
    pub risk_rank: Vec<usize>,
    /// Trading days of history that the shrinkage model keeps, one variant
    /// each.
    pub risk_window: Vec<usize>,
    /// The shrinkage targets, one variant each.
    pub risk_shrinkage_targets: Vec<RiskShrinkageTargetKind>,
    /// Halflives of the factor covariances, one variant each.
    pub covariance_halflife: Vec<Figure>,
    /// Halflives of the specific variances, one variant each.
    pub specific_halflife: Vec<Figure>,
    /// Whether the shrinkage model is told its label, to report its fits by.
    pub verbose: bool,
}

/// One evaluated risk model configuration.
#[derive(Debug)]
pub struct Variant {
    /// Column label, with the sweep dimensions that vary.
    pub label: String,
    /// The Python module of the model.
    pub module: &'static str,
    /// The shrinkage target, for the shrinkage module alone.
    pub target: Option<&'static str>,
    pub rank: usize,
    pub window: usize,
    pub covariance_halflife: Double,
    pub specific_halflife: Double,
}

/// A variant, with its label as characters.
pub ghost struct VariantView {
    pub label: Seq<char>,
    pub module: &'static str,
    pub target: Option<&'static str>,
    pub rank: usize,
    pub window: usize,
    pub covariance_halflife: Double,
    pub specific_halflife: Double,
}

impl View for Variant {
    type V = VariantView;

    open spec fn view(&self) -> VariantView {
        VariantView {
            label: self.label@,
            module: self.module,
            target: self.target,
            rank: self.rank,
            window: self.window,
            covariance_halflife: self.covariance_halflife,
            specific_halflife: self.specific_halflife,
        }
    }
}

/// The variants, with their labels as characters.
pub open spec fn views(v: Seq<Variant>) -> Seq<VariantView> {
    v.map_values(|x: Variant| x@)
}

/// A text, if it is called for.
pub open spec fn text_if(wanted: bool, text: Seq<char>) -> Seq<char> {
    if wanted {
        text
    } else {
        seq![]
    }
}

/// The label without the sweep dimensions: the model, and the target of a
/// shrinkage model with its dashes as underscores.
pub open spec fn base_label(target: Option<&'static str>) -> Seq<char> {
    match target {
        None => "factor_model"@,
        Some(name) => "shrinkage_"@ + replace_all(name@, "-"@, "_"@),
    }
}

/// The module of a model with or without a target.
pub open spec fn module_of(target: Option<&'static str>) -> &'static str {
    match target {
        None => "risk_models.factor_model",
        Some(_) => "risk_models.shrinkage",
    }
}

/// The label of a variant. A dimension appears in it only when it has more
/// than one value, and the rank and the window only for a shrinkage model.
pub open spec fn label_of(
    args: Args,
    target: Option<&'static str>,
    rank: usize,
    window: usize,
    ch: Figure,
    sh: Figure,
) -> Seq<char> {
    base_label(target) + text_if(
        target is Some && args.risk_rank@.len() > 1,
        "_r"@ + decimal(rank as nat),
    ) + text_if(
        target is Some && args.risk_window@.len() > 1,
        "_w"@ + decimal(window as nat),
    ) + text_if(args.covariance_halflife@.len() > 1, "_ch"@ + ch.text@) + text_if(
        args.specific_halflife@.len() > 1,
        "_sh"@ + sh.text@,
    )
}

/// One variant.
pub open spec fn variant_of(
    args: Args,
    target: Option<&'static str>,
    rank: usize,
    window: usize,
    ch: Figure,
    sh: Figure,
) -> VariantView {
    VariantView {
        label: label_of(args, target, rank, window, ch, sh),
        module: module_of(target),
        target,
        rank,
        window,
        covariance_halflife: ch.value,
        specific_halflife: sh.value,
    }
}

/// The variants of one size and covariance halflife, over the first `n`
/// specific halflives.
pub open spec fn over_specific(
    args: Args,
    target: Option<&'static str>,
    rank: usize,
    window: usize,
    ch: Figure,
    n: int,
) -> Seq<VariantView> {
    Seq::new(
        n as nat,
        |i: int| variant_of(args, target, rank, window, ch, args.specific_halflife@[i]),
    )
}

/// The variants of one size, over the first `n` covariance halflives crossed
/// with the specific ones.
pub open spec fn over_halflives(
    args: Args,
    target: Option<&'static str>,
    rank: usize,
    window: usize,
    n: int,
) -> Seq<VariantView>
    decreases n,
{
    if n <= 0 {
        seq![]
    } else {
        over_halflives(args, target, rank, window, n - 1) + over_specific(
            args,
            target,
            rank,
            window,
            args.covariance_halflife@[n - 1],
            args.specific_halflife@.len() as int,
        )
    }
}

/// The variants of one rank, over the first `n` windows crossed with the
/// halflives.
pub open spec fn over_windows(
    args: Args,
    target: Option<&'static str>,
    rank: usize,
    n: int,
) -> Seq<VariantView>
    decreases n,
{
    if n <= 0 {
        seq![]
    } else {
        over_windows(args, target, rank, n - 1) + over_halflives(
            args,
            target,
            rank,
            args.risk_window@[n - 1],
            args.covariance_halflife@.len() as int,
        )
    }
}

/// The variants of one target, over the first `n` ranks crossed with the
/// windows and the halflives.
pub open spec fn over_ranks(args: Args, target: Option<&'static str>, n: int) -> Seq<VariantView>
    decreases n,
{
    if n <= 0 {
        seq![]
    } else {
        over_ranks(args, target, n - 1) + over_windows(
            args,
            target,
            args.risk_rank@[n - 1],
            args.risk_window@.len() as int,
        )
    }
}

/// The variants of the shrinkage model, over the first `n` targets.
pub open spec fn over_targets(args: Args, n: int) -> Seq<VariantView>
    decreases n,
{
    if n <= 0 {
        seq![]
    } else {
        over_targets(args, n - 1) + over_ranks(
            args,
            Some(args.risk_shrinkage_targets@[n - 1].named()),
            args.risk_rank@.len() as int,
        )
    }
}

/// The variants of one model. The factor model reads neither a rank nor a
/// window, so it is crossed with the halflives alone.
pub open spec fn variants_of(args: Args, model: RiskModelKind) -> Seq<VariantView> {
    match model {
        RiskModelKind::FactorModel => over_halflives(
            args,
            None,
            0,
            0,
            args.covariance_halflife@.len() as int,
        ),
        RiskModelKind::Shrinkage => over_targets(args, args.risk_shrinkage_targets@.len() as int),
    }
}

/// The variants of the first `n` models.
pub open spec fn over_models(args: Args, n: int) -> Seq<VariantView>
    decreases n,
{
    if n <= 0 {
        seq![]
    } else {
        over_models(args, n - 1) + variants_of(args, args.risk_models@[n - 1])
    }
}

impl Args {
    /// Where the panels are read from: `start` less the warm-up.
    pub fn data_start(&self) -> (r: Option<Instant>)
        requires
            self.warmup_days <= MAX_DAYS,
        ensures
            r == Some(days_earlier(self.start, self.warmup_days as int)),
    {
        Some(warm_up_from(self.start, self.warmup_days as i64))
    }

    /// The rebalance calendar as of `now`: every `rebalance_every` calendar
    /// days from `start` up to `end`, or to `now` when there is no end.
    pub fn rebalance_instants_at(&self, now: Instant) -> (r: Vec<Instant>)
        requires
            self.rebalance_every <= MAX_DAYS,
            self.start.nanos < horizon(self.end, now).nanos ==> self.rebalance_every > 0,
        ensures
            r@ == rebalances(self.start, self.end, now, self.rebalance_every as int),
    {
        day_calendar(self.start, self.end, now, self.rebalance_every as i64)
    }

    /// The rebalance calendar, up to `end` or up to the present when it is
    /// open; an open one is `None` when no [`Instant`] can name the present.
    pub fn rebalance_instants(&self) -> (r: Option<Vec<Instant>>)
        requires
            self.rebalance_every <= MAX_DAYS,
            ends_anyway(self.start, self.end, self.rebalance_every as int),
        ensures
            exists|reading: Option<Instant>|
                listed(r) == #[trigger] calendar_told(
                    self.start,
                    self.end,
                    reading,
                    self.rebalance_every as int,
                ),
    {
        present_calendar(self.start, self.end, self.rebalance_every as i64)
    }

    /// The size of the tradable universe in a market of `n` symbols, with
    /// zero for the whole market.
    pub fn resolved_universe_size(&self, n: usize) -> (r: usize)
        ensures
            r == universe_size(self.universe_size, n),
    {
        resolve_universe_size(self.universe_size, n)
    }

    /// The label of a variant.
    fn label(
        &self,
        target: Option<&'static str>,
        rank: usize,
        window: usize,
        ch: &Figure,
        sh: &Figure,
    ) -> (r: String)
        ensures
            r@ == label_of(*self, target, rank, window, *ch, *sh),
    {
        let swept = match target {
            None => "factor_model".to_string(),
            Some(name) => {
                proof {
                    reveal_strlit("-");
                }
                "shrinkage_".to_string().concat(replace(name, "-", "_").as_str())
            },
        };
        let mut label = swept;
        assert(label@ =~= base_label(target));
        if target.is_some() && self.risk_rank.len() > 1 {
            label = label.concat("_r").concat(decimal_text(rank).as_str());
        }
        assert(label@ =~= base_label(target) + text_if(
            target is Some && self.risk_rank@.len() > 1,
            "_r"@ + decimal(rank as nat),
        ));
        let ghost first = label@;
        if target.is_some() && self.risk_window.len() > 1 {
            label = label.concat("_w").concat(decimal_text(window).as_str());
        }
        assert(label@ =~= first + text_if(
            target is Some && self.risk_window@.len() > 1,
            "_w"@ + decimal(window as nat),
        ));
        let ghost second = label@;
        if self.covariance_halflife.len() > 1 {
            label = label.concat("_ch").concat(ch.text.as_str());
        }
        assert(label@ =~= second + text_if(
            self.covariance_halflife@.len() > 1,
            "_ch"@ + ch.text@,
        ));
        let ghost third = label@;
        if self.specific_halflife.len() > 1 {
            label = label.concat("_sh").concat(sh.text.as_str());
        }
        assert(label@ =~= third + text_if(self.specific_halflife@.len() > 1, "_sh"@ + sh.text@));
        label
    }

    /// Adds the variants of one size.
    fn add_halflives(
        &self,
        out: &mut Vec<Variant>,
        target: Option<&'static str>,
        rank: usize,
        window: usize,
    )
        ensures
            views(final(out)@) == views(old(out)@) + over_halflives(
                *self,
                target,
                rank,
                window,
                self.covariance_halflife@.len() as int,
            ),
    {
        let module = match target {
            None => "risk_models.factor_model",
            Some(_) => "risk_models.shrinkage",
        };
        let ghost before = views(out@);
        assert(before + Seq::<VariantView>::empty() =~= before);
        for c in 0..self.covariance_halflife.len()
            invariant
                module == module_of(target),
                views(out@) == before + over_halflives(*self, target, rank, window, c as int),
        {
            let ch = &self.covariance_halflife[c];
            let ghost so_far = views(out@);
            assert(so_far + over_specific(*self, target, rank, window, *ch, 0) =~= so_far);
            for s in 0..self.specific_halflife.len()
                invariant
                    module == module_of(target),
                    views(out@) == so_far + over_specific(
                        *self,
                        target,
                        rank,
                        window,
                        *ch,
                        s as int,
                    ),
            {
                let sh = &self.specific_halflife[s];
                let ghost here = views(out@);
                let variant = Variant {
                    label: self.label(target, rank, window, ch, sh),
                    module,
                    target,
                    rank,
                    window,
                    covariance_halflife: ch.value,
                    specific_halflife: sh.value,
                };
                out.push(variant);
                assert(views(out@) =~= here.push(variant@));
                assert(views(out@) =~= so_far + over_specific(
                    *self,
                    target,
                    rank,
                    window,
                    *ch,
                    s + 1,
                ));
            }
            assert(views(out@) =~= before + over_halflives(*self, target, rank, window, c + 1));
        }
    }

    /// Adds the variants of one target.
    fn add_ranks(&self, out: &mut Vec<Variant>, target: Option<&'static str>)
        ensures
            views(final(out)@) == views(old(out)@) + over_ranks(
                *self,
                target,
                self.risk_rank@.len() as int,
            ),
    {
        let ghost before = views(out@);
        assert(before + Seq::<VariantView>::empty() =~= before);
        for i in 0..self.risk_rank.len()
            invariant
                views(out@) == before + over_ranks(*self, target, i as int),
        {
            let rank: usize = self.risk_rank[i];
            let ghost so_far = views(out@);
            assert(so_far + Seq::<VariantView>::empty() =~= so_far);
            for j in 0..self.risk_window.len()
                invariant
                    views(out@) == so_far + over_windows(*self, target, rank, j as int),
            {
                self.add_halflives(out, target, rank, self.risk_window[j]);
                assert(views(out@) =~= so_far + over_windows(*self, target, rank, j + 1));
            }
            assert(views(out@) =~= before + over_ranks(*self, target, i + 1));
        }
    }

    /// The evaluated variants: the selected models crossed with every swept
    /// parameter. A sweep dimension appears in the label only when it has
    /// more than one value, so runs of a single configuration keep short
    /// names.
    pub fn variants(&self) -> (r: Vec<Variant>)
        ensures
            views(r@) == over_models(*self, self.risk_models@.len() as int),
    {
        let mut out: Vec<Variant> = Vec::new();
        assert(views(out@) =~= seq![]);
        for i in 0..self.risk_models.len()
            invariant
                views(out@) == over_models(*self, i as int),
        {
            let ghost so_far = views(out@);
            match self.risk_models[i] {
                RiskModelKind::FactorModel => {
                    self.add_halflives(&mut out, None, 0, 0);
                },
                RiskModelKind::Shrinkage => {
                    assert(so_far + Seq::<VariantView>::empty() =~= so_far);
                    for j in 0..self.risk_shrinkage_targets.len()
                        invariant
                            views(out@) == so_far + over_targets(*self, j as int),
                    {
                        let target = self.risk_shrinkage_targets[j].name();
                        self.add_ranks(&mut out, Some(target));
                        assert(views(out@) =~= so_far + over_targets(*self, j + 1));
                    }
                },
            }
            assert(views(out@) =~= over_models(*self, i + 1));
        }
        out
    }
}

/// A model without a target is the factor model, and one with a target is the
/// shrinkage model; each has its own module.
pub proof fn a_target_tells_the_model(target: Option<&'static str>)
    ensures
        target is None ==> module_of(target)@ == "risk_models.factor_model"@,
        target is Some ==> module_of(target)@ == "risk_models.shrinkage"@,
{
}

/// A variant carries the values of its settings, and not those of others.
pub proof fn a_variant_carries_its_settings(
    args: Args,
    target: Option<&'static str>,
    rank: usize,
    window: usize,
    ch: Figure,
    sh: Figure,
)
    ensures
        ({
            let v = variant_of(args, target, rank, window, ch, sh);
            &&& v.target == target
            &&& v.module == module_of(target)
            &&& v.rank == rank
            &&& v.window == window
            &&& v.covariance_halflife == ch.value
            &&& v.specific_halflife == sh.value
        }),
{
}

proof fn halflives_are_crossed(
    args: Args,
    target: Option<&'static str>,
    rank: usize,
    window: usize,
    n: int,
    i: int,
    j: int,
)
    requires
        0 <= i < n <= args.covariance_halflife@.len(),
        0 <= j < args.specific_halflife@.len(),
    ensures
        over_halflives(args, target, rank, window, n).contains(
            variant_of(
                args,
                target,
                rank,
                window,
                args.covariance_halflife@[i],
                args.specific_halflife@[j],
            ),
        ),
    decreases n,
{
    let v = variant_of(
        args,
        target,
        rank,
        window,
        args.covariance_halflife@[i],
        args.specific_halflife@[j],
    );
    let now = over_halflives(args, target, rank, window, n);
    let before = over_halflives(args, target, rank, window, n - 1);
    if i < n - 1 {
        halflives_are_crossed(args, target, rank, window, n - 1, i, j);
        let k = choose|k: int| 0 <= k < before.len() && before[k] == v;
        assert(now[k] == v);
    } else {
        assert(now[before.len() + j] == v);
    }
}

proof fn windows_are_crossed(
    args: Args,
    target: Option<&'static str>,
    rank: usize,
    n: int,
    w: int,
    i: int,
    j: int,
)
    requires
        0 <= w < n <= args.risk_window@.len(),
        0 <= i < args.covariance_halflife@.len(),
        0 <= j < args.specific_halflife@.len(),
    ensures
        over_windows(args, target, rank, n).contains(
            variant_of(
                args,
                target,
                rank,
                args.risk_window@[w],
                args.covariance_halflife@[i],
                args.specific_halflife@[j],
            ),
        ),
    decreases n,
{
    let v = variant_of(
        args,
        target,
        rank,
        args.risk_window@[w],
        args.covariance_halflife@[i],
        args.specific_halflife@[j],
    );
    let now = over_windows(args, target, rank, n);
    let before = over_windows(args, target, rank, n - 1);
    if w < n - 1 {
        windows_are_crossed(args, target, rank, n - 1, w, i, j);
        let k = choose|k: int| 0 <= k < before.len() && before[k] == v;
        assert(now[k] == v);
    } else {
        let m = args.covariance_halflife@.len() as int;
        let last = over_halflives(args, target, rank, args.risk_window@[w], m);
        halflives_are_crossed(args, target, rank, args.risk_window@[w], m, i, j);
        let k = choose|k: int| 0 <= k < last.len() && last[k] == v;
        assert(now[before.len() + k] == v);
    }
}

proof fn ranks_are_crossed(
    args: Args,
    target: Option<&'static str>,
    n: int,
    r: int,
    w: int,
    i: int,
    j: int,
)
    requires
        0 <= r < n <= args.risk_rank@.len(),
        0 <= w < args.risk_window@.len(),
        0 <= i < args.covariance_halflife@.len(),
        0 <= j < args.specific_halflife@.len(),
    ensures
        over_ranks(args, target, n).contains(
            variant_of(
                args,
                target,
                args.risk_rank@[r],
                args.risk_window@[w],
                args.covariance_halflife@[i],
                args.specific_halflife@[j],
            ),
        ),
    decreases n,
{
    let v = variant_of(
        args,
        target,
        args.risk_rank@[r],
        args.risk_window@[w],
        args.covariance_halflife@[i],
        args.specific_halflife@[j],
    );
    let now = over_ranks(args, target, n);
    let before = over_ranks(args, target, n - 1);
    if r < n - 1 {
        ranks_are_crossed(args, target, n - 1, r, w, i, j);
        let k = choose|k: int| 0 <= k < before.len() && before[k] == v;
        assert(now[k] == v);
    } else {
        let m = args.risk_window@.len() as int;
        let last = over_windows(args, target, args.risk_rank@[r], m);
        windows_are_crossed(args, target, args.risk_rank@[r], m, w, i, j);
        let k = choose|k: int| 0 <= k < last.len() && last[k] == v;
        assert(now[before.len() + k] == v);
    }
}

proof fn targets_are_crossed(args: Args, n: int, t: int, r: int, w: int, i: int, j: int)
    requires
        0 <= t < n <= args.risk_shrinkage_targets@.len(),
        0 <= r < args.risk_rank@.len(),
        0 <= w < args.risk_window@.len(),
        0 <= i < args.covariance_halflife@.len(),
        0 <= j < args.specific_halflife@.len(),
    ensures
        over_targets(args, n).contains(
            variant_of(
                args,
                Some(args.risk_shrinkage_targets@[t].named()),
                args.risk_rank@[r],
                args.risk_window@[w],
                args.covariance_halflife@[i],
                args.specific_halflife@[j],
            ),
        ),
    decreases n,
{
    let target = Some(args.risk_shrinkage_targets@[t].named());
    let v = variant_of(
        args,
        target,
        args.risk_rank@[r],
        args.risk_window@[w],
        args.covariance_halflife@[i],
        args.specific_halflife@[j],
    );
    let now = over_targets(args, n);
    let before = over_targets(args, n - 1);
    if t < n - 1 {
        targets_are_crossed(args, n - 1, t, r, w, i, j);
        let k = choose|k: int| 0 <= k < before.len() && before[k] == v;
        assert(now[k] == v);
    } else {
        let m = args.risk_rank@.len() as int;
        let last = over_ranks(args, target, m);
        ranks_are_crossed(args, target, m, r, w, i, j);
        let k = choose|k: int| 0 <= k < last.len() && last[k] == v;
        assert(now[before.len() + k] == v);
    }
}

/// Every combination of settings is tried: the factor model at each pair of
/// halflives, and the shrinkage model at each pair for every target, rank and
/// window.
pub proof fn every_combination_is_tried(args: Args, t: int, r: int, w: int, i: int, j: int)
    requires
        0 <= t < args.risk_shrinkage_targets@.len(),
        0 <= r < args.risk_rank@.len(),
        0 <= w < args.risk_window@.len(),
        0 <= i < args.covariance_halflife@.len(),
        0 <= j < args.specific_halflife@.len(),
    ensures
        exists|k: int|
            #![trigger variants_of(args, RiskModelKind::FactorModel)[k]]
            0 <= k < variants_of(args, RiskModelKind::FactorModel).len() && ({
                let tried = variants_of(args, RiskModelKind::FactorModel)[k];
                &&& tried.target is None
                &&& tried.covariance_halflife == args.covariance_halflife@[i].value
                &&& tried.specific_halflife == args.specific_halflife@[j].value
            }),
        exists|k: int|
            #![trigger variants_of(args, RiskModelKind::Shrinkage)[k]]
            0 <= k < variants_of(args, RiskModelKind::Shrinkage).len() && ({
                let tried = variants_of(args, RiskModelKind::Shrinkage)[k];
                &&& tried.target == Some(args.risk_shrinkage_targets@[t].named())
                &&& tried.rank == args.risk_rank@[r]
                &&& tried.window == args.risk_window@[w]
                &&& tried.covariance_halflife == args.covariance_halflife@[i].value
                &&& tried.specific_halflife == args.specific_halflife@[j].value
            }),
{
    let n = args.covariance_halflife@.len() as int;
    halflives_are_crossed(args, None, 0, 0, n, i, j);
    let v = variant_of(
        args,
        None,
        0,
        0,
        args.covariance_halflife@[i],
        args.specific_halflife@[j],
    );
    let tried = variants_of(args, RiskModelKind::FactorModel);
    let k = choose|k: int| 0 <= k < tried.len() && tried[k] == v;
    assert(tried[k].target is None);
    targets_are_crossed(args, args.risk_shrinkage_targets@.len() as int, t, r, w, i, j);
    let v = variant_of(
        args,
        Some(args.risk_shrinkage_targets@[t].named()),
        args.risk_rank@[r],
        args.risk_window@[w],
        args.covariance_halflife@[i],
        args.specific_halflife@[j],
    );
    let tried = variants_of(args, RiskModelKind::Shrinkage);
    let k = choose|k: int| 0 <= k < tried.len() && tried[k] == v;
    assert(tried[k].target == v.target);
}

} // verus!
