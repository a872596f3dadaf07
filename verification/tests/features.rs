//! The feature catalogs and panels.
use tradingflow_agents::data::{MarketData, PANELS, PRICE_FIELDS, build_market_data};
use tradingflow_agents::double::Double;
use tradingflow_agents::expr::Context;
use tradingflow_agents::features::alpha158::build_features_alpha158;
use tradingflow_agents::features::alpha360::build_features_alpha360;
use tradingflow_agents::features::barra::{BARRA_FIELDS, build_features_barra};
use tradingflow_agents::features::basic::{BASIC_FIELDS, build_features_basic};
use tradingflow_agents::features::cicc_fund::{FUND_FIELDS, build_features_cicc_fund};
use tradingflow_agents::features::cicc_pv::build_features_cicc_pv;
use tradingflow_agents::features::common::{
    annualized, change, dedup_entries, duplicate_text, growth, normalize, parent_equity, ttm,
    winsorize_impute,
};
use tradingflow_agents::features::context::build_price_context;
use tradingflow_agents::features::industry::{build_features_industry, distinct_tags};
use tradingflow_agents::features::panels::{Catalog, build_features};
use tradingflow_agents::features::sets::{AlphaFeatureSet, FeatureSet, RiskFeatureSet};
use tradingflow_agents::graph::{
    Binary, Builder, Node, Op, Payload, Rolling, Unary, Window, Wire,
};
use tradingflow_agents::strategy_markowitz;
use tradingflow_agents::strategy_markowitz::features as markowitz_features;
use tradingflow_agents::time::{DAY, Duration};

fn text(v: &[&str]) -> Vec<String> {
    v.iter().map(|s| s.to_string()).collect()
}

/// A market that has every field of every catalog.
fn market() -> (Builder, MarketData) {
    let mut b = Builder::new(text(&["A", "B", "C"]));
    let mut names: Vec<&str> = Vec::new();
    for list in [&PRICE_FIELDS[..], &FUND_FIELDS[..], &BARRA_FIELDS[..], &BASIC_FIELDS[..]] {
        for name in list {
            if !names.contains(name) {
                names.push(name);
            }
        }
    }
    let columns: Vec<Vec<String>> = PANELS
        .iter()
        .map(|(_, prefix)| {
            let under = format!("{prefix}.");
            names.iter().filter(|n| n.starts_with(&under)).map(|n| n.to_string()).collect()
        })
        .collect();
    let m = build_market_data(&mut b, "dir", None, None, &columns).unwrap();
    (b, m)
}

fn node<'a, K>(b: &'a Builder, w: Wire<K>) -> &'a Node {
    &b.node_list()[w.index()]
}

fn source(n: &Node) -> &str {
    match &n.data {
        Payload::Formula { source, .. } => source,
        _ => panic!("no formula"),
    }
}

fn names<K>(entries: &[(String, Wire<K>)]) -> Vec<&str> {
    entries.iter().map(|e| e.0.as_str()).collect()
}

#[test]
fn industry_tags_are_distinct_and_sorted() {
    let tags = distinct_tags(&text(&["food", "", "bank", "food", "auto"]));
    assert_eq!(tags, text(&["auto", "bank", "food"]));
    assert!(distinct_tags(&text(&["", ""])).is_empty());
}

#[test]
fn industry_dummies_are_zero_or_one() {
    let mut b = Builder::new(text(&["A", "B", "C"]));
    let dummies = build_features_industry(&mut b, &text(&["food", "", "bank"]));
    assert_eq!(names(&dummies), vec!["IND_bank", "IND_food"]);
    match &node(&b, dummies[0].1).data {
        Payload::Flags(flags) => assert_eq!(flags, &vec![false, false, true]),
        _ => panic!("no flags"),
    }
    match &node(&b, dummies[1].1).data {
        Payload::Flags(flags) => assert_eq!(flags, &vec![true, false, false]),
        _ => panic!("no flags"),
    }
}

#[test]
fn flows_and_levels_are_followed_over_a_year() {
    let (mut b, m) = market();
    let year = Window::Span(Duration { nanos: 365 * DAY });
    let flow = annualized(&mut b, &m, m.income_report_signals, "income_statement.profit");
    assert_eq!(node(&b, flow).op, Op::Annualize);
    assert_eq!(node(&b, flow).inputs[1], m.field("income_statement.profit").index());
    let whole = &b.node_list()[node(&b, flow).inputs[2]];
    assert_eq!(whole.op, Op::Whole);
    assert_eq!(whole.inputs, vec![m.field("income_statement.report_year").index()]);
    let mean = ttm(&mut b, m.daily, flow);
    assert!(matches!(node(&b, mean).op, Op::Rolling(Rolling::Mean(_), w) if w == year));
    let diff = change(&mut b, m.daily, flow);
    assert_eq!(node(&b, diff).op, Op::Rolling(Rolling::Diff, year));
    let relative = growth(&mut b, m.daily, flow);
    assert_eq!(node(&b, relative).op, Op::Rolling(Rolling::PctChange, year));
    let equity = parent_equity(&mut b, &m);
    assert_eq!(node(&b, equity).op, Op::Unary(Unary::Neg));
}

#[test]
fn finalizers_are_wired() {
    let (mut b, m) = market();
    let x = normalize(&mut b, m.close);
    let five = Double { bits: 5.0f64.to_bits() };
    let minus_five = Double { bits: (-5.0f64).to_bits() };
    assert!(matches!(node(&b, x).op, Op::Unary(Unary::Clamp(lo, hi)) if lo == minus_five && hi == five));
    let y = winsorize_impute(&mut b, m.close);
    assert_eq!(node(&b, y).op, Op::Unary(Unary::Impute));
    let cut = &b.node_list()[node(&b, y).inputs[0]];
    let tail = Double { bits: 0.01f64.to_bits() };
    assert_eq!(cut.op, Op::Unary(Unary::Winsorize(tail)));
    assert_eq!(cut.inputs, vec![m.close.index()]);
}

#[test]
fn the_price_context_has_adjusted_fields() {
    let (mut b, m) = market();
    let ctx = build_price_context(&mut b, &m);
    assert_eq!(ctx.names, text(&["open", "high", "low", "close", "volume", "vwap"]));
    assert_eq!(ctx.lanes, 3);
    assert_eq!(ctx.clock.index(), m.daily.index());
}

#[test]
fn equal_spellings_are_lowered_once() {
    let (mut b, m) = market();
    let mut ctx = build_price_context(&mut b, &m);
    let before = b.size();
    let x = ctx.lower_str(&mut b, "Log($close)");
    let y = ctx.lower_str(&mut b, "Log($open)");
    let z = ctx.lower_str(&mut b, "Log($close)");
    assert_eq!(x.index(), z.index());
    assert_ne!(x.index(), y.index());
    assert_eq!(b.size(), before + 2);
}

#[test]
fn a_new_field_keeps_what_is_lowered() {
    let (mut b, m) = market();
    let mut ctx = Context::new(m.daily, 3);
    ctx.add_field("turn", m.volume);
    let x = ctx.lower_str(&mut b, "Mean($turn, 5)");
    ctx.add_field("turn", m.amount);
    let y = ctx.lower_str(&mut b, "Mean($turn, 5)");
    assert_eq!(x.index(), y.index());
    let z = ctx.lower_str(&mut b, "Mean($turn, 6)");
    assert!(node(&b, z).inputs.contains(&m.amount.index()));
    assert!(!node(&b, z).inputs.contains(&m.volume.index()));
}

#[test]
fn formula_catalogs_share_todays_prices() {
    let (mut b, m) = market();
    let mut ctx = build_price_context(&mut b, &m);
    let first = build_features_alpha158(&mut b, &mut ctx);
    let second = build_features_alpha360(&mut b, &mut ctx);
    assert_eq!(first.len(), 158);
    assert_eq!(second.len(), 360);
    for name in ["OPEN0", "HIGH0", "LOW0", "VWAP0"] {
        let x = first.iter().find(|e| e.0 == name).unwrap().1;
        let y = second.iter().find(|e| e.0 == name).unwrap().1;
        assert_eq!(x.index(), y.index());
    }
    let roc = first.iter().find(|e| e.0 == "ROC5").unwrap().1;
    let close = second.iter().find(|e| e.0 == "CLOSE5").unwrap().1;
    assert_eq!(source(node(&b, roc)), "Ref($close, 5) / $close");
    assert_eq!(roc.index(), close.index());
}

#[test]
fn the_basic_catalog_has_its_factors() {
    let (mut b, m) = market();
    let entries = build_features_basic(&mut b, &m);
    assert_eq!(
        names(&entries),
        vec!["REV_1M", "MOM_12M", "VOL_3M", "LN_MC", "BP_LR", "EP_TTM", "TURN_1M"]
    );
    assert_eq!(node(&b, entries[1].1).op, Op::Binary(Binary::Sub));
    assert_eq!(node(&b, entries[3].1).op, Op::Unary(Unary::Ln));
    for k in [4, 5] {
        let ranked = node(&b, entries[k].1);
        assert_eq!(ranked.op, Op::Unary(Unary::Percentile));
        assert_eq!(b.node_list()[ranked.inputs[0]].op, Op::Binary(Binary::Div));
    }
}

#[test]
fn the_style_catalog_has_its_descriptors() {
    let (mut b, m) = market();
    let mut ctx = build_price_context(&mut b, &m);
    let entries = build_features_barra(&mut b, &mut ctx, &m);
    assert_eq!(
        names(&entries),
        vec![
            "SIZE", "BETA", "MOM", "DASTD", "CMRA", "HSIGMA", "STOM", "STOQ", "STOA", "NLSIZE",
            "BTOP", "ETOP", "CETOP", "EGRO", "SGRO", "MLEV", "DTOA", "BLEV"
        ]
    );
    let nlsize = node(&b, entries[9].1);
    assert_eq!(nlsize.op, Op::Unary(Unary::NonlinearSize));
    let z = &b.node_list()[nlsize.inputs[0]];
    assert_eq!(z.op, Op::Unary(Unary::Standardize));
    assert_eq!(z.inputs, vec![entries[0].1.index()]);
    assert_eq!(source(node(&b, entries[2].1)), "Ref(Log($close), 21) - Ref(Log($close), 504)");
}

#[test]
fn the_fundamental_catalog_has_its_factors() {
    let (mut b, m) = market();
    let entries = build_features_cicc_fund(&mut b, &m);
    let list = names(&entries);
    for name in &list {
        assert_eq!(list.iter().filter(|n| n == &name).count(), 1, "{name}");
    }
    assert!(list.len() > 40);
}

#[test]
fn the_volume_catalog_has_its_factors() {
    let (mut b, m) = market();
    let mut ctx = build_price_context(&mut b, &m);
    let entries = build_features_cicc_pv(&mut b, &mut ctx, &m);
    let list = names(&entries);
    assert_eq!(list.len(), 18 + 60 + 9 + 2 + 10);
    assert_eq!(list[0], "mmt_normal_M");
    assert_eq!(list[87], "mmt_range_M");
    assert_eq!(node(&b, entries[87].1).op, Op::RangeMomentum(21));
    assert_eq!(node(&b, entries[88].1).op, Op::RangeMomentum(252));
    assert_eq!(list[89], "distribution_ret_avg");
    assert_eq!(node(&b, entries[98].1).op, Op::Column(9));
    let chips = &b.node_list()[node(&b, entries[98].1).inputs[0]];
    assert_eq!(chips.op, Op::ChipDistribution(250));
}

#[test]
fn the_first_of_each_name_is_kept() {
    let (_, m) = market();
    let mut entries = vec![
        ("X".to_string(), m.close),
        ("Y".to_string(), m.open),
        ("X".to_string(), m.close),
        ("Y".to_string(), m.high),
    ];
    let clashes = dedup_entries(&mut entries);
    assert_eq!(names(&entries), vec!["X", "Y"]);
    assert_eq!(entries[1].1.index(), m.open.index());
    assert_eq!(clashes, text(&["Y"]));
    assert!(duplicate_text("Y").contains("\"Y\""));
}

#[test]
fn a_duplicate_is_held_against_the_entry_kept() {
    let (_, m) = market();
    let mut entries = vec![
        ("A".to_string(), m.close),
        ("A".to_string(), m.open),
        ("A".to_string(), m.close),
    ];
    let clashes = dedup_entries(&mut entries);
    assert_eq!(names(&entries), vec!["A"]);
    assert_eq!(entries[0].1.index(), m.close.index());
    assert_eq!(clashes, text(&["A"]));
}

#[test]
fn collisions_of_different_features_are_told() {
    let (mut b, m) = market();
    let ctx = build_price_context(&mut b, &m);
    let own = |name: &str, source: &str| (name.to_string(), source.to_string());
    let catalog = Catalog {
        ctx,
        formulas: vec![
            own("KMID", "$open - $close"),
            own("OPEN0", "$open / $close"),
            own("BP_LR", "$close"),
            own("mmt_range_M", "$high"),
            own("X", "$low"),
            own("X", "$close"),
            own("X", "$low"),
        ],
    };
    let sets = vec![
        AlphaFeatureSet::CiccPv,
        AlphaFeatureSet::Alpha158,
        AlphaFeatureSet::Alpha101,
        AlphaFeatureSet::CiccFund,
    ];
    let risk = vec![RiskFeatureSet::Barra];
    let panels =
        build_features(&mut b, &m, &sets, &risk, &text(&["", "", ""]), Some(catalog));
    assert_eq!(panels.alpha_clashes, text(&["BP_LR", "X", "KMID", "mmt_range_M"]));
    assert!(panels.risk_clashes.is_empty());
}

#[test]
fn panels_carry_the_selection_and_the_intercept() {
    let (mut b, m) = market();
    let panels = build_features(
        &mut b,
        &m,
        &vec![AlphaFeatureSet::Alpha360, AlphaFeatureSet::Alpha158],
        &vec![RiskFeatureSet::Industry, RiskFeatureSet::Barra],
        &text(&["bank", "", "food"]),
        None,
    );
    assert_eq!(panels.alpha.schema.len(), 158 + 360 - 4);
    assert_eq!(panels.alpha.schema[0], "KMID");
    assert!(panels.alpha_clashes.is_empty());
    assert_eq!(panels.risk.schema.len(), 18 + 1 + 2);
    assert_eq!(panels.risk.schema[18], "COUNTRY");
    assert_eq!(panels.risk.schema[19], "IND_bank");
    let risk = node(&b, panels.risk.panel);
    assert_eq!(risk.op, Op::Stack);
    let one = Double { bits: 1.0f64.to_bits() };
    assert_eq!(b.node_list()[risk.inputs[18]].op, Op::Full(3, one));
    assert_eq!(b.node_list()[risk.inputs[19]].op, Op::Indicator);
}

#[test]
fn an_empty_selection_has_no_alpha_columns() {
    let (mut b, m) = market();
    let panels = build_features(&mut b, &m, &vec![], &vec![], &text(&["", "", ""]), None);
    assert!(panels.alpha.schema.is_empty());
    assert_eq!(node(&b, panels.alpha.panel).op, Op::NoColumns(3));
    assert_eq!(panels.risk.schema, text(&["COUNTRY"]));
}

#[test]
fn the_markowitz_finalizer_refuses_an_empty_alpha() {
    let (mut b, m) = market();
    let tags = text(&["", "", ""]);
    let r = strategy_markowitz::panels::build_features(&mut b, &m, &vec![], &vec![], &tags, None);
    assert_eq!(r.err(), Some("no alpha features selected".to_string()));
    let sets = vec![AlphaFeatureSet::Alpha158];
    let risk = vec![RiskFeatureSet::Barra];
    let r = strategy_markowitz::panels::build_features(&mut b, &m, &sets, &risk, &tags, None);
    let panels = r.ok().unwrap();
    let alpha = node(&b, panels.alpha.panel);
    assert_eq!(b.node_list()[alpha.inputs[0]].op, Op::Unary(Unary::Impute));
    let styles = node(&b, panels.risk.panel);
    assert_eq!(b.node_list()[styles.inputs[0]].op, Op::Unary(Unary::Standardize));
}

#[test]
fn the_markowitz_panel_is_built_or_refused() {
    let (mut b, m) = market();
    let r = markowitz_features::build_features(&mut b, &m, &vec![], None);
    assert_eq!(r.err().unwrap().text(), "no features selected");
    let r = markowitz_features::build_features(&mut b, &m, &vec![FeatureSet::Basic, FeatureSet::Alpha158], None);
    let f = r.ok().unwrap();
    assert_eq!(f.schema.len(), 7 + 158);
    let all = vec![FeatureSet::Alpha158, FeatureSet::Alpha360];
    assert_eq!(markowitz_features::build_features(&mut b, &m, &all, None).ok().unwrap().schema.len(), 514);
}

#[test]
fn two_features_of_one_name_are_refused() {
    let (mut b, m) = market();
    let ctx = build_price_context(&mut b, &m);
    let catalog = Catalog {
        ctx,
        formulas: vec![("KMID".to_string(), "$open - $close".to_string())],
    };
    let sets = vec![FeatureSet::Alpha101, FeatureSet::Alpha158];
    let r = markowitz_features::build_features(&mut b, &m, &sets, Some(catalog));
    assert_eq!(r.err().unwrap().text(), "two different features are both named \"KMID\"");
}

#[test]
fn a_supplied_catalog_comes_before_the_others() {
    let (mut b, m) = market();
    let ctx = build_price_context(&mut b, &m);
    let catalog = Catalog {
        ctx,
        formulas: vec![("ALPHA1".to_string(), "Rank($close, 5)".to_string())],
    };
    let sets = vec![AlphaFeatureSet::Alpha101, AlphaFeatureSet::Alpha158];
    let panels =
        build_features(&mut b, &m, &sets, &vec![], &text(&["", "", ""]), Some(catalog));
    assert_eq!(panels.alpha.schema[0], "ALPHA1");
    assert_eq!(panels.alpha.schema.len(), 159);
}
