//! The plans of the programs, and their settings.
use tradingflow_agents::data::{MarketData, PANELS, PRICE_FIELDS, build_market_data};
use tradingflow_agents::double::{Double, Figure};
use tradingflow_agents::features::barra::BARRA_FIELDS;
use tradingflow_agents::features::basic::BASIC_FIELDS;
use tradingflow_agents::features::sets::{AlphaFeatureSet, FeatureSet, RiskFeatureSet};
use tradingflow_agents::graph::{
    Builder, Metric, Node, Op, Param, Payload, Rolling, Setting, TraderParams, Unary, Window, Wire,
};
use tradingflow_agents::paths::Style;
use tradingflow_agents::plans::PlanError;
use tradingflow_agents::risk_model_compare;
use tradingflow_agents::score;
use tradingflow_agents::screens::{features_base, features_neutral};
use tradingflow_agents::strategy_base;
use tradingflow_agents::strategy_markowitz;
use tradingflow_agents::time::{DAY, Instant};
use tradingflow_agents::trade::{Costs, costs_of};

fn text(v: &[&str]) -> Vec<String> {
    v.iter().map(|s| s.to_string()).collect()
}

fn double(x: f64) -> Double {
    Double { bits: x.to_bits() }
}

fn figure(x: f64) -> Figure {
    Figure { value: double(x), text: format!("{x}") }
}

fn at(days: i64) -> Instant {
    Instant { nanos: days * DAY }
}

fn market_with(lists: &[&[&str]]) -> (Builder, MarketData) {
    let mut b = Builder::new(text(&["A", "B", "C"]));
    let mut names: Vec<&str> = Vec::new();
    for list in lists {
        for name in *list {
            if !names.contains(name) {
                names.push(name);
            }
        }
    }
    let columns: Vec<Vec<String>> = PANELS
        .iter()
        .map(|(_, prefix)| {
            let under = format!("{prefix}.");
            names.iter().filter(|n| n.starts_with(&under)).map(|n| n.to_string()).collect()
        })
        .collect();
    let m = build_market_data(&mut b, "dir", None, None, &columns).unwrap();
    (b, m)
}

fn market() -> (Builder, MarketData) {
    market_with(&[&PRICE_FIELDS, &BARRA_FIELDS, &BASIC_FIELDS])
}

fn node<'a, K>(b: &'a Builder, w: Wire<K>) -> &'a Node {
    &b.node_list()[w.index()]
}

fn input<'a>(b: &'a Builder, n: &Node, k: usize) -> &'a Node {
    &b.node_list()[n.inputs[k]]
}

fn module(n: &Node) -> (&str, Vec<(&str, &Param)>) {
    match &n.data {
        Payload::Module { name, params } => {
            (name, params.iter().map(|(k, v)| (k.as_str(), v)).collect())
        }
        _ => panic!("no module"),
    }
}

fn score_args(weights: &[&str]) -> score::args::Args {
    score::args::Args {
        data_dir: "dir".to_string(),
        weights: text(weights),
        output: "score.csv".to_string(),
        start: at(1000),
        end: Some(at(1100)),
        warmup_days: 500,
        benchmark_rebalance_every: 30,
        benchmark_size: 300,
        max_gross: figure(1.0),
        initial_cash: double(1e6),
        fee_rate_buy: double(0.0005),
        fee_rate_sell: double(0.0015),
        fee_min: double(0.0),
    }
}

#[test]
fn the_scorer_fixes_its_own_settings() {
    let args = score_args(&[]);
    assert_eq!(args.data_start(), Some(at(500)));
    let expected = vec![at(1000), at(1030), at(1060), at(1090)];
    assert_eq!(args.benchmark_instants_at(at(5000)), expected);
    assert_eq!(args.benchmark_instants(), Some(expected));
    assert_eq!(args.benchmark_instants_at(at(1031)), vec![at(1000), at(1030)]);
    assert_eq!(
        args.trader_params(),
        TraderParams {
            delayed: true,
            initial_cash: double(1e6),
            fee_base_buy: double(0.0),
            fee_base_sell: double(0.0),
            fee_rate_buy: double(0.0005),
            fee_rate_sell: double(0.0015),
        }
    );
}

#[test]
fn books_are_scored_like_the_benchmark() {
    let args = score_args(&["books/candidate.csv", "other.v2.csv"]);
    let mut b = Builder::new(text(&["A", "B"]));
    let m = score::data::build_market_data(&mut b, "dir", args.data_start(), args.end);
    let instants = args.benchmark_instants_at(at(5000));
    let books = score::plan::build_books(&mut b, &args, &m, instants).ok().unwrap();
    let labels: Vec<&str> = books.iter().map(|e| e.0.as_str()).collect();
    assert_eq!(labels, vec!["index_top300", "candidate", "other.v2"]);
    for (i, (_, r)) in books.iter().enumerate() {
        assert_eq!(node(&b, r.nav).op, Op::Record);
        assert_eq!(node(&b, r.nav).inputs[0], m.daily.index());
        let value = input(&b, node(&b, r.nav), 1);
        assert_eq!(value.op, Op::Port(2));
        let trader = input(&b, value, 0);
        assert_eq!(trader.op, Op::Fractional(args.trader_params()));
        assert_eq!(trader.inputs.len(), 9);
        let turnover = input(&b, node(&b, r.turnover), 1);
        assert_eq!(turnover.op, Op::Metric(Metric::Turnover));
        let measured = turnover.inputs.clone();
        assert_eq!(measured == trader.inputs[7..].to_vec(), i == 0);
        let gross = input(&b, node(&b, r.gross), 1);
        assert_eq!(gross.op, Op::SumFinite);
        assert_eq!(input(&b, gross, 0).op, Op::Unary(Unary::Abs));
        assert_eq!(input(&b, gross, 0).inputs, vec![measured[1]]);
    }
}

#[test]
fn a_book_is_read_inside_the_window_and_filled_with_zeros() {
    let args = score_args(&["books/candidate.csv"]);
    let mut b = Builder::new(text(&["A", "B"]));
    let m = score::data::build_market_data(&mut b, "dir", None, args.end);
    let books = score::plan::build_books(&mut b, &args, &m, vec![at(1000)]).ok().unwrap();
    let trader = input(&b, input(&b, node(&b, books[1].1.nav), 1), 0);
    let weights = input(&b, trader, 8);
    assert_eq!(weights.op, Op::Unary(Unary::FillMissing(double(0.0))));
    let collected = input(&b, weights, 0);
    assert_eq!(collected.op, Op::Collect);
    assert_eq!(collected.inputs[2], trader.inputs[7]);
    let file = input(&b, input(&b, collected, 0), 0);
    assert_eq!(file.op, Op::Csv { start: Some(at(1000)), end: Some(at(1100)) });
    let turnover = input(&b, node(&b, books[1].1.turnover), 1);
    let whole = input(&b, input(&b, input(&b, input(&b, turnover, 1), 0), 0), 0);
    assert_eq!(whole.op, Op::Csv { start: None, end: Some(at(1100)) });
    match &file.data {
        Payload::Table { file, time, axis, columns } => {
            assert_eq!(file, "books/candidate.csv");
            assert_eq!((time.as_str(), axis.as_str()), ("date", "symbol"));
            assert_eq!(columns, &text(&["weight"]));
        }
        _ => panic!("no table"),
    }
}

#[test]
fn a_weights_file_without_a_name_is_refused() {
    let args = score_args(&["a.csv", "books/..", "/"]);
    let mut b = Builder::new(text(&["A"]));
    let m = score::data::build_market_data(&mut b, "dir", None, None);
    assert_eq!(
        score::plan::build_books(&mut b, &args, &m, vec![]).err(),
        Some("books/..: cannot derive a portfolio label from the filename".to_string())
    );
}

#[test]
fn labels_follow_the_style_of_the_paths() {
    let args = score_args(&["books\\candidate.csv"]);
    for (style, label) in [(Style::Windows, "candidate"), (Style::Unix, "books\\candidate")] {
        let mut b = Builder::new(text(&["A"]));
        let m = score::data::build_market_data(&mut b, "dir", None, None);
        let books = score::plan::build_books_in(style, &mut b, &args, &m, vec![]).ok().unwrap();
        assert_eq!(books[1].0, label);
    }
}

fn base_args(risk_model: strategy_base::args::RiskModelKind) -> strategy_base::args::Args {
    strategy_base::args::Args {
        data_dir: "dir".to_string(),
        python_ops_dir: "python".to_string(),
        output: "strategy.csv".to_string(),
        min_weight: double(0.005),
        start: at(1000),
        end: Some(at(1090)),
        warmup_days: 400,
        rebalance_every: 30,
        universe_size: 0,
        alpha_feature_sets: vec![AlphaFeatureSet::Alpha158],
        risk_feature_sets: vec![RiskFeatureSet::Barra],
        min_periods: 120,
        alpha_model: strategy_base::args::AlphaModelKind::FactorModel,
        ridge_l2: double(1.0),
        premium_halflife: double(250.0),
        risk_model,
        risk_rank: 20,
        risk_window: 500,
        covariance_halflife: double(250.0),
        specific_halflife: double(150.0),
        portfolio: strategy_base::args::PortfolioKind::MarkowitzCvxpy,
        benchmark_relative: false,
        risk_aversion: vec![figure(0.5), figure(10.0)],
        initial_cash: double(1e6),
        costs: Costs::Frictionless,
    }
}

#[test]
fn the_factor_strategy_has_its_settings() {
    let mut args = base_args(strategy_base::args::RiskModelKind::FactorModel);
    assert_eq!(args.data_start(), Some(at(600)));
    let expected = vec![at(1000), at(1030), at(1060)];
    assert_eq!(args.rebalance_instants_at(at(4000)), expected);
    assert_eq!(args.rebalance_instants(), Some(expected));
    assert_eq!(args.resolved_universe_size(5900), 5900);
    args.universe_size = 300;
    assert_eq!(args.resolved_universe_size(5900), 300);
    assert_eq!(args.alpha_module(), "alpha_models.factor_model");
    assert_eq!(args.risk_module(), "risk_models.factor_model");
    assert_eq!(args.portfolio_module(), "portfolio.markowitz_cvxpy");
    let args = base_args(strategy_base::args::RiskModelKind::Shrinkage);
    assert_eq!(args.risk_module(), "risk_models.shrinkage");
}

#[test]
fn the_factor_strategy_is_wired() {
    let args = base_args(strategy_base::args::RiskModelKind::Shrinkage);
    let (mut b, m) = market();
    let instants = args.rebalance_instants_at(at(4000));
    let tags = text(&["", "", ""]);
    let s = strategy_base::plan::build_strategy(&mut b, &args, &m, &tags, instants, None)
        .ok()
        .unwrap();
    let labels: Vec<&str> = s.variants.iter().map(|v| v.label.as_str()).collect();
    assert_eq!(labels, vec!["risk_aversion_0.5", "risk_aversion_10"]);
    let mut asked_inputs = Vec::new();
    for v in &s.variants {
        let trader = input(&b, input(&b, node(&b, v.nav), 1), 0);
        assert_eq!(trader.op, Op::Benchmark { delayed: true, initial_cash: double(1e6) });
        let weights = input(&b, trader, 8);
        assert_eq!(node(&b, v.book).inputs, vec![trader.inputs[7], trader.inputs[8]]);
        assert_eq!(weights.op, Op::Unary(Unary::ScaleDown(double(1.0))));
        let long = input(&b, weights, 0);
        assert_eq!(long.op, Op::Unary(Unary::Clamp(double(0.0), double(f64::INFINITY))));
        let asked = input(&b, long, 0);
        assert_eq!(module(asked).0, "portfolio.markowitz_cvxpy");
        asked_inputs.push(asked.inputs.clone());
    }
    assert_eq!(asked_inputs[0], asked_inputs[1]);
    let asked = &asked_inputs[0];
    let mu = &b.node_list()[asked[2]];
    assert_eq!(module(mu).0, "alpha_models.factor_model");
    assert_eq!(mu.inputs[1], s.panels.alpha.panel.index());
    let risk = input(&b, &b.node_list()[asked[3]], 0);
    let (name, params) = module(risk);
    assert_eq!(name, "risk_models.shrinkage");
    let keys: Vec<&str> = params.iter().map(|p| p.0).collect();
    assert_eq!(
        keys,
        vec![
            "universe_size",
            "target_offset",
            "min_periods",
            "covariance_halflife",
            "specific_halflife",
            "rank",
            "window"
        ]
    );
    assert!(matches!(params[0].1, Param::Count(3)));
    assert!(matches!(params[5].1, Param::Count(20)));
    let index = input(&b, input(&b, node(&b, s.index_nav), 1), 0);
    assert_eq!(index.inputs[8], asked[1]);
}

#[test]
fn each_variant_adds_as_many_nodes() {
    let mut sizes = Vec::new();
    for n in 0..3 {
        let mut args = base_args(strategy_base::args::RiskModelKind::FactorModel);
        args.risk_aversion = (0..n).map(|i| figure(i as f64)).collect();
        let (mut b, m) = market();
        let tags = text(&["", "", ""]);
        let built = strategy_base::plan::build_strategy(&mut b, &args, &m, &tags, vec![], None);
        assert!(built.is_ok());
        sizes.push(b.size());
    }
    assert_eq!(sizes[1] - sizes[0], 7);
    assert_eq!(sizes[2] - sizes[1], 7);
}

#[test]
fn trading_without_fees_is_frictionless() {
    let none = double(0.0);
    assert_eq!(costs_of(none, double(-0.0), none), Costs::Frictionless);
    for (buy, sell, min) in [(0.1, 0.0, 0.0), (0.0, 0.1, 0.0), (0.0, 0.0, 5.0)] {
        let (rate_buy, rate_sell, min) = (double(buy), double(sell), double(min));
        assert_eq!(
            costs_of(rate_buy, rate_sell, min),
            Costs::Fees { rate_buy, rate_sell, min }
        );
    }
}

#[test]
fn fees_are_paid_when_there_are_any() {
    let mut args = base_args(strategy_base::args::RiskModelKind::FactorModel);
    args.costs = Costs::Fees {
        rate_buy: double(0.0005),
        rate_sell: double(0.0015),
        min: double(5.0),
    };
    let (mut b, m) = market();
    let tags = text(&["", "", ""]);
    let s = strategy_base::plan::build_strategy(&mut b, &args, &m, &tags, vec![], None)
        .ok()
        .unwrap();
    let index = input(&b, input(&b, node(&b, s.index_nav), 1), 0);
    assert_eq!(
        index.op,
        Op::Fractional(TraderParams {
            delayed: true,
            initial_cash: double(1e6),
            fee_base_buy: double(5.0),
            fee_base_sell: double(5.0),
            fee_rate_buy: double(0.0005),
            fee_rate_sell: double(0.0015),
        })
    );
}

#[test]
fn a_plan_that_cannot_be_made_says_why() {
    let mut args = base_args(strategy_base::args::RiskModelKind::FactorModel);
    args.universe_size = 1;
    let (mut b, m) = market();
    let tags = text(&["", "", ""]);
    let e = strategy_base::plan::build_strategy(&mut b, &args, &m, &tags, vec![], None)
        .err()
        .unwrap();
    assert!(matches!(e, PlanError::SmallUniverse));
    assert_eq!(e.text(), "the tradable universe needs at least 2 symbols");
    args.universe_size = 2;
    let (mut b, m) = market_with(&[&PRICE_FIELDS]);
    let e = strategy_base::plan::build_strategy(&mut b, &args, &m, &tags, vec![], None)
        .err()
        .unwrap();
    assert!(matches!(e, PlanError::NoField(_)));
    assert_eq!(e.text(), format!("no field {:?} among the 8 loaded", BARRA_FIELDS[0]));
}

fn markowitz_args() -> strategy_markowitz::args::Args {
    strategy_markowitz::args::Args {
        data_dir: "dir".to_string(),
        output: "nav.csv".to_string(),
        min_weight: double(0.005),
        start: at(1000),
        end: None,
        warmup_days: 400,
        rebalance_every: 30,
        universe_size: 2,
        initial_cash: double(1e6),
        features: vec![FeatureSet::Basic],
        ridge_alpha: double(0.01),
        risk_aversion: vec![figure(0.5), figure(100.0)],
    }
}

#[test]
fn the_markowitz_strategy_has_its_settings() {
    let args = markowitz_args();
    assert_eq!(args.data_start(), Some(at(600)));
    assert_eq!(args.rebalance_instants_at(at(1031)), vec![at(1000), at(1030)]);
    assert!(args.rebalance_instants().unwrap().len() > 600);
    assert_eq!(args.resolved_universe_size(10), 2);
}

#[test]
fn the_markowitz_strategy_is_wired() {
    let args = markowitz_args();
    let (mut b, m) = market();
    let s = strategy_markowitz::plan::build_strategy(&mut b, &args, &m, vec![at(1000)], None)
        .ok()
        .unwrap();
    assert_eq!(s.features.schema.len(), 7);
    let labels: Vec<&str> = s.variants.iter().map(|v| v.label.as_str()).collect();
    assert_eq!(labels, vec!["delta_0.5", "delta_100"]);
    let trader = input(&b, input(&b, node(&b, s.variants[1].nav), 1), 0);
    let clock = input(&b, trader, 7);
    assert_eq!(clock.op, Op::Port(0));
    assert_eq!(input(&b, trader, 8).op, Op::Port(1));
    let optimizer = input(&b, clock, 0);
    let (name, params) = module(optimizer);
    assert_eq!(name, "portfolio");
    assert!(matches!(params[1], ("max_universe_size", Param::Count(2))));
    assert!(matches!(params[2], ("mode", Param::Setting(Setting::MinMeanVariance))));
    assert!(matches!(params[3], ("bound", Param::Number(x)) if *x == double(100.0)));
    assert!(matches!(params[5], ("full_position", Param::Flag(false))));
    assert!(matches!(params[6], ("factor_rank", Param::Count(20))));
    let mean = input(&b, input(&b, optimizer, 2), 0);
    assert_eq!(module(mean).0, "mean");
    assert!(matches!(module(mean).1[2], ("max_periods", Param::Nothing)));
    assert_eq!(input(&b, mean, 2).op, Op::Unary(Unary::Demean));
    let variance = input(&b, input(&b, optimizer, 3), 0);
    assert_eq!(module(variance).0, "variance");
    assert!(matches!(module(variance).1[1], ("max_periods", Param::Count(252))));
    assert!(matches!(module(variance).1[4], ("factor_rank", Param::Count(20))));
    let target = input(&b, variance, 2);
    assert_eq!(target.op, Op::Unary(Unary::Winsorize(double(0.01))));
    assert_eq!(target.inputs, vec![m.log_return.index()]);
    let book = input(&b, input(&b, trader, 1), 0);
    assert!(matches!(book.op, Op::Quotes { delist_days: 20, .. }));
}

#[test]
fn the_markowitz_strategy_says_why_it_is_refused() {
    let mut args = markowitz_args();
    args.features = vec![];
    let (mut b, m) = market();
    let e = strategy_markowitz::plan::build_strategy(&mut b, &args, &m, vec![], None).err().unwrap();
    assert!(matches!(e, strategy_markowitz::plan::StrategyError::Features(_)));
    assert_eq!(e.text(), "no features selected");
    args.universe_size = 1;
    let e = strategy_markowitz::plan::build_strategy(&mut b, &args, &m, vec![], None).err().unwrap();
    assert!(matches!(e, strategy_markowitz::plan::StrategyError::Plan(_)));
    assert_eq!(e.text(), "the tradable universe needs at least 2 symbols");
}

fn compare_args() -> risk_model_compare::args::Args {
    risk_model_compare::args::Args {
        data_dir: "dir".to_string(),
        python_ops_dir: "python".to_string(),
        output: "risk_models.csv".to_string(),
        start: at(1000),
        end: Some(at(1040)),
        warmup_days: 1000,
        rebalance_every: 30,
        universe_size: 0,
        risk_feature_sets: vec![RiskFeatureSet::Barra],
        min_periods: 120,
        risk_models: vec![risk_model_compare::args::RiskModelKind::FactorModel, risk_model_compare::args::RiskModelKind::Shrinkage],
        risk_rank: vec![20],
        risk_window: vec![500],
        risk_shrinkage_targets: vec![
            risk_model_compare::args::RiskShrinkageTargetKind::Unshrunk,
            risk_model_compare::args::RiskShrinkageTargetKind::ConstantCorrelation,
        ],
        covariance_halflife: vec![figure(250.0)],
        specific_halflife: vec![figure(150.0)],
        verbose: false,
    }
}

#[test]
fn single_runs_are_labelled_by_their_model() {
    let args = compare_args();
    let variants = args.variants();
    let labels: Vec<&str> = variants.iter().map(|v| v.label.as_str()).collect();
    assert_eq!(
        labels,
        vec!["factor_model", "shrinkage_none", "shrinkage_constant_correlation"]
    );
    assert_eq!(variants[0].module, "risk_models.factor_model");
    assert_eq!(variants[0].target, None);
    assert_eq!((variants[0].rank, variants[0].window), (0, 0));
    assert_eq!(variants[2].module, "risk_models.shrinkage");
    assert_eq!(variants[2].target, Some("constant-correlation"));
    assert_eq!((variants[2].rank, variants[2].window), (20, 500));
    assert_eq!(args.data_start(), Some(at(0)));
    assert_eq!(args.rebalance_instants_at(at(9999)), vec![at(1000), at(1030)]);
    assert_eq!(args.rebalance_instants(), Some(vec![at(1000), at(1030)]));
    assert_eq!(args.resolved_universe_size(7), 7);
}

#[test]
fn sweeps_are_crossed_and_labelled() {
    let mut args = compare_args();
    args.risk_rank = vec![10, 20];
    args.risk_window = vec![250, 500];
    args.covariance_halflife = vec![figure(90.5), figure(250.0)];
    args.specific_halflife = vec![figure(60.0), figure(150.0)];
    let variants = args.variants();
    assert_eq!(variants.len(), 4 + 2 * 2 * 2 * 2 * 2);
    let labels: Vec<&str> = variants.iter().map(|v| v.label.as_str()).collect();
    assert_eq!(labels[0], "factor_model_ch90.5_sh60");
    assert_eq!(labels[1], "factor_model_ch90.5_sh150");
    assert_eq!(labels[3], "factor_model_ch250_sh150");
    assert_eq!(labels[4], "shrinkage_none_r10_w250_ch90.5_sh60");
    assert_eq!(labels[8], "shrinkage_none_r10_w500_ch90.5_sh60");
    assert_eq!(labels[12], "shrinkage_none_r20_w250_ch90.5_sh60");
    assert_eq!(labels[35], "shrinkage_constant_correlation_r20_w500_ch250_sh150");
    for (i, label) in labels.iter().enumerate() {
        assert!(!labels[..i].contains(label), "{label}");
    }
    assert_eq!(variants[35].covariance_halflife, double(250.0));
    assert_eq!(variants[35].specific_halflife, double(150.0));
}

#[test]
fn shrinkage_targets_have_names() {
    assert_eq!(risk_model_compare::args::RiskShrinkageTargetKind::Unshrunk.name(), "none");
    assert_eq!(risk_model_compare::args::RiskShrinkageTargetKind::Diagonal.name(), "diagonal");
    assert_eq!(risk_model_compare::args::RiskShrinkageTargetKind::ConstantCorrelation.name(), "constant-correlation");
    assert_eq!(risk_model_compare::args::RiskShrinkageTargetKind::CommonCovariance.name(), "common-covariance");
    assert_eq!(risk_model_compare::args::RiskShrinkageTargetKind::SingleIndex.name(), "single-index");
}

#[test]
fn risk_models_are_scored_a_tick_behind() {
    let mut args = compare_args();
    args.verbose = true;
    let (mut b, m) = market();
    let tags = text(&["", "", ""]);
    let c = risk_model_compare::plan::build_comparison(&mut b, &args, &m, &tags, vec![at(1000)])
        .ok()
        .unwrap();
    assert_eq!(c.scores.len(), 3);
    for s in &c.scores {
        assert_eq!(s.series.len(), 7);
    }
    let scores = &c.scores[1];
    assert_eq!(scores.label, "shrinkage_none");
    let likelihood = input(&b, node(&b, scores.series[0]), 1);
    assert_eq!(module(likelihood).0, "metric.log_likelihood");
    let lag = Op::Rolling(Rolling::Lag, Window::Count(1));
    for k in 2..6 {
        let scored = input(&b, likelihood, k);
        assert_eq!(scored.op, lag);
        assert_eq!(input(&b, scored, 0).op, Op::Or);
    }
    let model = input(&b, input(&b, input(&b, likelihood, 3), 1), 0);
    let (name, params) = module(model);
    assert_eq!(name, "risk_models.shrinkage");
    assert!(matches!(params[7], ("target", Param::Text(t)) if t == "none"));
    assert!(matches!(params[8], ("label", Param::Text(t)) if t == "shrinkage_none"));
    let held = input(&b, input(&b, node(&b, scores.series[1]), 1), 1);
    assert_eq!(held.op, Op::Unary(Unary::FillMissing(double(0.0))));
    assert_eq!(input(&b, held, 0).op, lag);
    let share = input(&b, node(&b, scores.series[6]), 1);
    assert_eq!(share.op, Op::Ratio);
    assert_eq!(input(&b, share, 0).op, Op::Metric(Metric::ShortExposure));
    assert_eq!(input(&b, share, 1).op, Op::Metric(Metric::GrossExposure));
}

#[test]
fn a_comparison_needs_its_fields() {
    let args = compare_args();
    let (mut b, m) = market_with(&[&PRICE_FIELDS]);
    let tags = text(&["", "", ""]);
    let e = risk_model_compare::plan::build_comparison(&mut b, &args, &m, &tags, vec![])
        .err()
        .unwrap();
    assert_eq!(e.text(), format!("no field {:?} among the 8 loaded", BARRA_FIELDS[0]));
}

fn screen_args(universe_size: usize) -> features_base::Args {
    features_base::Args {
        data_dir: "dir".to_string(),
        python_ops_dir: "python".to_string(),
        output: "features.csv".to_string(),
        start: None,
        end: None,
        alpha_feature_sets: vec![AlphaFeatureSet::Alpha158],
        rank: false,
        horizon: 5,
        universe_size,
    }
}

fn neutral_args(neutralize: bool) -> features_neutral::Args {
    features_neutral::Args {
        data_dir: "dir".to_string(),
        python_ops_dir: "python".to_string(),
        output: "features.csv".to_string(),
        start: Some(at(2000)),
        end: None,
        warmup_days: 1100,
        alpha_feature_sets: vec![AlphaFeatureSet::Alpha158],
        risk_feature_sets: vec![RiskFeatureSet::Barra],
        neutralize,
        rank: false,
        horizon: 5,
        universe_size: 2,
    }
}

#[test]
fn features_are_screened_against_the_return_that_follows() {
    let (mut b, m) = market();
    let tags = text(&["", "", ""]);
    let s = features_base::build_screen(&mut b, &screen_args(0), &m, &tags, None).ok().unwrap();
    assert_eq!(s.ics.len(), 158);
    assert_eq!(s.ics[3].0, "KUP");
    let ic = input(&b, node(&b, s.ics[3].1), 1);
    assert_eq!(ic.op, Op::Metric(Metric::Ic));
    let feature = input(&b, ic, 1);
    assert_eq!(feature.op, Op::Rolling(Rolling::Lag, Window::Count(5)));
    assert_eq!(input(&b, feature, 1).op, Op::Column(3));
    let target = input(&b, ic, 2);
    assert_eq!(target.op, Op::Rolling(Rolling::PctChange, Window::Count(5)));
    assert_eq!(target.inputs, vec![m.daily.index(), m.adj_close.index()]);
}

#[test]
fn a_screen_can_be_held_to_a_universe() {
    let (mut b, m) = market();
    let tags = text(&["", "", ""]);
    let mut args = screen_args(2);
    args.rank = true;
    let s = features_base::build_screen(&mut b, &args, &m, &tags, None).ok().unwrap();
    let ic = input(&b, node(&b, s.ics[0].1), 1);
    assert_eq!(ic.op, Op::Metric(Metric::RankIc));
    let masked = input(&b, input(&b, ic, 1), 1);
    let mask = input(&b, masked, 1);
    assert_eq!(mask.op, Op::Unary(Unary::Signum));
    assert_eq!(input(&b, mask, 0).op, Op::Unary(Unary::MaskNonPositive));
    assert_eq!(input(&b, input(&b, mask, 0), 0).op, Op::TopByCap(2));
    let (mut b, m) = market_with(&[&PRICE_FIELDS]);
    assert_eq!(
        features_base::build_screen(&mut b, &args, &m, &tags, None).err(),
        Some("no field \"shares.circulating\" among the 8 loaded".to_string())
    );
    assert!(features_base::build_screen(&mut b, &screen_args(0), &m, &tags, None).is_ok());
}

#[test]
fn features_are_projected_before_they_are_scored() {
    let (mut b, m) = market();
    let tags = text(&["", "", ""]);
    let args = neutral_args(true);
    assert_eq!(args.data_start(), Some(at(900)));
    let s = features_neutral::build_screen(&mut b, &args, &m, &tags, None).ok().unwrap();
    let ic = input(&b, node(&b, s.ics[0].1), 1);
    let column = input(&b, input(&b, input(&b, ic, 1), 1), 0);
    let panel = input(&b, column, 0);
    assert_eq!(module(panel).0, "screens.neutralize");
    assert!(module(panel).1.is_empty());
    assert_eq!(panel.inputs[0], m.daily.index());
    assert_eq!(panel.inputs[1], s.panels.alpha.panel.index());
    assert_eq!(panel.inputs[2], s.panels.risk.panel.index());
}

#[test]
fn without_projection_features_are_scored_as_they_are() {
    let (mut b, m) = market();
    let tags = text(&["", "", ""]);
    let s = features_neutral::build_screen(&mut b, &neutral_args(false), &m, &tags, None)
        .ok()
        .unwrap();
    let ic = input(&b, node(&b, s.ics[0].1), 1);
    let column = input(&b, input(&b, input(&b, ic, 1), 1), 0);
    assert_eq!(column.inputs, vec![s.panels.alpha.panel.index()]);
    let mut open = neutral_args(false);
    open.start = None;
    assert_eq!(open.data_start(), None);
}

#[test]
fn a_neutral_screen_needs_a_cross_section() {
    let (mut b, m) = market_with(&[&PRICE_FIELDS]);
    let tags = text(&["", "", ""]);
    let mut args = neutral_args(true);
    args.universe_size = 1;
    let e = features_neutral::build_screen(&mut b, &args, &m, &tags, None).err().unwrap();
    assert_eq!(e.text(), "the neutralized screen needs a tradable cross-section");
    args.universe_size = 2;
    let e = features_neutral::build_screen(&mut b, &args, &m, &tags, None).err().unwrap();
    assert_eq!(e.text(), format!("no field {:?} among the 8 loaded", BARRA_FIELDS[0]));
}
