//! The formula catalogs, spelled out.
use tradingflow_agents::features::alpha158;
use tradingflow_agents::features::alpha360;
use tradingflow_agents::features::barra;
use tradingflow_agents::features::cicc_pv::{correlation, momentum, windowed};
use tradingflow_agents::features::formula::{
    spell_call, spell_group, spell_minus, spell_over, spell_over2, spell_quotient, spell_times,
};
use tradingflow_agents::text::{decimal_text, replace, segment_of};

const RET: &str = "Delta(Log($close), 1)";

fn pair(name: &str, source: &str) -> (String, String) {
    (name.to_string(), source.to_string())
}

#[test]
fn momentum_formulas_are_spelled_out() {
    let intra = "(Log($close) - Log($open))";
    let over = "(Log($open) - Ref(Log($close), 1))";
    let masked = "If(Abs(Delta(Log($close), 1)) < 0.095, Delta(Log($close), 1), 0)";
    let expected = vec![
        pair("mmt_normal_M", "Delta(Log($close), 21)"),
        pair("mmt_normal_A", "Ref(Log($close), 21) - Ref(Log($close), 252)"),
        pair("mmt_avg_M", "$close / Mean($close, 20)"),
        pair("mmt_avg_A", "Ref($close, 21) / Mean($close, 252)"),
        pair("mmt_intraday_M", &format!("Sum({intra}, 21)")),
        pair("mmt_intraday_A", &format!("Sum({intra}, 252) - Sum({intra}, 21)")),
        pair("mmt_overnight_M", &format!("Sum({over}, 21)")),
        pair("mmt_overnight_A", &format!("Sum({over}, 252) - Sum({over}, 21)")),
        pair("mmt_off_limit_M", &format!("Sum({masked}, 21)")),
        pair("mmt_off_limit_A", &format!("Sum({masked}, 252) - Sum({masked}, 21)")),
        pair("mmt_route_M", &format!("Delta(Log($close), 21) / Sum(Abs({RET}), 21)")),
        pair("mmt_route_A", &format!("Delta(Log($close), 252) / Sum(Abs({RET}), 252)")),
        pair(
            "mmt_discrete_M",
            &format!(
                "(Sum(If({RET} > 0, 1, 0), 21) - Sum(If({RET} < 0, 1, 0), 21)) / Count({RET}, 21)"
            ),
        ),
        pair(
            "mmt_discrete_A",
            &format!(
                "(Sum(If({RET} > 0, 1, 0), 252) - Sum(If({RET} < 0, 1, 0), 252)) / Count({RET}, 252)"
            ),
        ),
        pair("mmt_sec_rank_M", &format!("Mean(CSRank({RET}), 20)")),
        pair("mmt_sec_rank_A", &format!("Mean(CSRank({RET}), 252)")),
        pair("mmt_time_rank_M", "Mean(Rank(Log($close), 252), 20)"),
        pair("mmt_highest_days_A", "252 - IdxMax($high, 252)"),
    ];
    assert_eq!(momentum(), expected);
}

#[test]
fn windowed_formulas_are_spelled_out() {
    let templates = [
        ("vol_std", "Std({ret}, {d})"),
        ("vol_down_std", "Std(Less({ret}, {ret} * 0), {d})"),
        ("vol_up_std", "Std(Greater({ret}, {ret} * 0), {d})"),
        ("vol_highlow_avg", "Mean({hl}, {d})"),
        ("vol_highlow_std", "Std({hl}, {d})"),
        ("vol_upshadow_avg", "Mean(($high - Greater($open, $close)) / $high, {d})"),
        ("vol_upshadow_std", "Std(($high - Greater($open, $close)) / $high, {d})"),
        ("vol_downshadow_avg", "Mean((Less($open, $close) - $low) / $low, {d})"),
        ("vol_downshadow_std", "Std((Less($open, $close) - $low) / $low, {d})"),
        ("vol_w_upshadow_avg", "Mean(($high - $close) / $high, {d})"),
        ("vol_w_upshadow_std", "Std(($high - $close) / $high, {d})"),
        ("vol_w_downshadow_avg", "Mean(($close - $low) / $low, {d})"),
        ("vol_w_downshadow_std", "Std(($close - $low) / $low, {d})"),
        ("liq_turn_avg", "Mean($turn, {d})"),
        ("liq_turn_std", "Std($turn, {d})"),
        ("liq_vstd", "CSRank(Sum($amount, {d}) / Std({ret}, {d}))"),
        ("liq_amihud_avg", "CSRank(Mean(Abs({ret}) / $amount, {d}))"),
        ("liq_amihud_std", "CSRank(Std(Abs({ret}) / $amount, {d}))"),
        ("liq_shortcut_avg", "CSRank(Mean($path / $amount, {d}))"),
        ("liq_shortcut_std", "CSRank(Std($path / $amount, {d}))"),
    ];
    let mut expected = Vec::new();
    for (name, source) in templates {
        for (tag, d) in [("1M", "21"), ("3M", "63"), ("6M", "126")] {
            let source = source
                .replace("{d}", d)
                .replace("{ret}", RET)
                .replace("{hl}", "($high / $low)");
            expected.push((format!("{name}_{tag}"), source));
        }
    }
    assert_eq!(windowed(), expected);
}

#[test]
fn correlation_formulas_are_spelled_out() {
    let turnd = "Delta($turn, 1)";
    let expected = vec![
        pair("corr_price_turn_1M", "Corr($turn, $close, 20)"),
        pair("corr_price_turn_post_1M", "Corr(Ref($turn, 1), $close, 20)"),
        pair("corr_price_turn_prior_1M", "Corr($turn, Ref($close, 1), 20)"),
        pair("corr_ret_turn_1M", &format!("Corr($turn, {RET}, 20)")),
        pair("corr_ret_turn_post_1M", &format!("Corr(Ref($turn, 1), {RET}, 20)")),
        pair("corr_ret_turn_prior_1M", &format!("Corr($turn, Ref({RET}, 1), 20)")),
        pair("corr_ret_turnd_1M", &format!("Corr({turnd}, {RET}, 20)")),
        pair("corr_ret_turnd_post_1M", &format!("Corr(Ref({turnd}, 1), {RET}, 20)")),
        pair("corr_ret_turnd_prior_1M", &format!("Corr({turnd}, Ref({RET}, 1), 20)")),
    ];
    assert_eq!(correlation(), expected);
}

#[test]
fn style_formulas_are_spelled_out() {
    let beta = format!("(Cov({RET}, $mkt, 252) / Var($mkt, 252))");
    let vdiff = format!("(Var({RET}, 252) - Power({beta}, 2) * Var($mkt, 252))");
    let expected = vec![
        pair("BETA", &beta),
        pair("MOM", "Ref(Log($close), 21) - Ref(Log($close), 504)"),
        pair("DASTD", &format!("Std({RET}, 252)")),
        pair("CMRA", "Max(Log($close), 252) - Min(Log($close), 252)"),
        pair("HSIGMA", &format!("Sqrt(Greater({vdiff}, {vdiff} * 0))")),
        pair("STOM", "Log(Sum($turn, 21))"),
        pair("STOQ", "Log(Sum($turn, 63) / 3)"),
        pair("STOA", "Log(Sum($turn, 252) / 12)"),
    ];
    assert_eq!(barra::styles(), expected);
}

#[test]
fn the_alpha158_catalog_has_its_features() {
    let list = alpha158::formulas();
    assert_eq!(list.len(), 158);
    assert_eq!(list[0], pair("KMID", "($close - $open) / $open"));
    assert_eq!(
        list[8],
        pair("KSFT2", "(2 * $close - $high - $low) / ($high - $low + 1e-12)")
    );
    assert_eq!(list[9], pair("OPEN0", "$open / $close"));
    assert_eq!(list[12], pair("VWAP0", "$vwap / $close"));
    assert_eq!(list[13], pair("ROC5", "Ref($close, 5) / $close"));
    assert_eq!(list[17], pair("ROC60", "Ref($close, 60) / $close"));
    assert_eq!(
        list[13 + 5 * 11 + 2],
        pair(
            "RSV20",
            "($close - Min($low, 20)) / (Max($high, 20) - Min($low, 20) + 1e-12)"
        )
    );
    assert_eq!(
        list[157],
        pair(
            "VSUMD60",
            "(Sum(Greater($volume - Ref($volume, 1), 0), 60) - Sum(Greater(Ref($volume, 1) - \
             $volume, 0), 60)) / (Sum(Abs($volume - Ref($volume, 1)), 60) + 1e-12)"
        )
    );
}

#[test]
fn the_alpha360_catalog_runs_from_the_oldest_lag_to_today() {
    let list = alpha360::formulas();
    assert_eq!(list.len(), 360);
    assert_eq!(list[0], pair("CLOSE59", "Ref($close, 59) / $close"));
    assert_eq!(list[58], pair("CLOSE1", "Ref($close, 1) / $close"));
    assert_eq!(list[59], pair("CLOSE0", "$close / $close"));
    assert_eq!(list[60], pair("OPEN59", "Ref($open, 59) / $close"));
    assert_eq!(list[300], pair("VOLUME59", "Ref($volume, 59) / ($volume + 1e-12)"));
    assert_eq!(list[359], pair("VOLUME0", "$volume / ($volume + 1e-12)"));
}

#[test]
fn todays_prices_have_one_spelling_in_both_catalogs() {
    let first = alpha158::formulas();
    let second = alpha360::formulas();
    for name in ["OPEN0", "HIGH0", "LOW0", "VWAP0"] {
        let a = first.iter().find(|e| e.0 == name).unwrap();
        let b = second.iter().find(|e| e.0 == name).unwrap();
        assert_eq!(a, b);
    }
}

#[test]
fn no_other_name_stands_in_both_catalogs() {
    let second = alpha360::formulas();
    let shared: Vec<String> = alpha158::formulas()
        .into_iter()
        .map(|e| e.0)
        .filter(|name| second.iter().any(|e| &e.0 == name))
        .collect();
    assert_eq!(shared, vec!["OPEN0", "HIGH0", "LOW0", "VWAP0"]);
}

#[test]
fn formula_parts_are_spelled() {
    assert_eq!(spell_call("Log", "$close"), "Log($close)");
    assert_eq!(spell_over("Ref", "$close", 10), "Ref($close, 10)");
    assert_eq!(spell_over2("Corr", "$a", "$b", 20), "Corr($a, $b, 20)");
    assert_eq!(spell_minus("a", "b"), "a - b");
    assert_eq!(spell_quotient("a", "b"), "a / b");
    assert_eq!(spell_times("a", "b"), "a * b");
    assert_eq!(spell_group("a - b"), "(a - b)");
}

#[test]
fn texts_are_cut_and_replaced() {
    assert_eq!(replace("{d} and {d}", "{d}", "60"), "60 and 60");
    assert_eq!(replace("aaa", "aa", "b"), "ba");
    assert_eq!(replace("", "x", "y"), "");
    assert_eq!(decimal_text(0), "0");
    assert_eq!(decimal_text(1907), "1907");
    assert_eq!(decimal_text(usize::MAX), format!("{}", usize::MAX));
    assert_eq!(segment_of("income_statement.profit.operating"), "income_statement");
    assert_eq!(segment_of("plain"), "plain");
    assert_eq!(segment_of(".x"), "");
}
