//! Tables, statistics and scores of books.
use tradingflow_agents::double::Double;
use tradingflow_agents::report::{
    Ratios, ReportTable, WeightsTable, held, max_drawdown, nav_samples, nav_stats, running_peaks,
    trim,
};
use tradingflow_agents::score::report::{
    Curves, PortfolioStats, Report, annualized, largest, stats,
};
use tradingflow_agents::time::{DAY, Instant};

fn double(x: f64) -> Double {
    Double { bits: x.to_bits() }
}

fn doubles(v: &[f64]) -> Vec<Double> {
    v.iter().map(|&x| double(x)).collect()
}

fn days(v: &[i64]) -> Vec<Instant> {
    v.iter().map(|&d| Instant { nanos: d * DAY }).collect()
}

fn text(v: &[&str]) -> Vec<String> {
    v.iter().map(|s| s.to_string()).collect()
}

fn ratios(deviation: f64) -> Ratios {
    Ratios {
        cagr: double(0.1),
        deviation: double(deviation),
        vol: double(0.2),
        sharpe: double(0.5),
    }
}

fn drawdowns() -> Vec<Double> {
    doubles(&[0.0, -0.1, -0.3, -0.2])
}

#[test]
fn samples_are_finite_and_positive() {
    let nav = doubles(&[f64::NAN, 1.0, 0.0, -2.0, f64::INFINITY, 3.0]);
    assert_eq!(nav_samples(&nav), doubles(&[1.0, 3.0]));
    assert_eq!(held(&nav), doubles(&[1.0, 3.0]));
}

#[test]
fn a_short_curve_has_a_final_value_only() {
    let s = nav_stats(&doubles(&[1.0, 2.0, f64::NAN]), ratios(0.01), &drawdowns());
    assert_eq!(s.final_value, double(2.0));
    assert!(s.cagr.is_nan() && s.sharpe.is_nan() && s.vol.is_nan() && s.max_drawdown.is_nan());
    let none = nav_stats(&vec![], ratios(0.01), &drawdowns());
    assert!(none.final_value.is_nan());
}

#[test]
fn a_curve_of_ten_samples_has_ratios() {
    let nav: Vec<Double> = (1..=10).map(|i| double(i as f64)).collect();
    let s = nav_stats(&nav, ratios(0.01), &drawdowns());
    assert_eq!(s.final_value, double(10.0));
    assert_eq!(s.cagr, double(0.1));
    assert_eq!(s.vol, double(0.2));
    assert_eq!(s.sharpe, double(0.5));
    assert_eq!(s.max_drawdown, double(-0.3));
}

#[test]
fn unusable_samples_change_no_statistics() {
    let nav: Vec<Double> = (1..=10).map(|i| double(i as f64)).collect();
    let mut more = nav.clone();
    more.insert(10, double(f64::NAN));
    more.insert(4, double(-1.0));
    more.insert(0, double(f64::INFINITY));
    more.insert(4, double(0.0));
    assert_eq!(nav_samples(&more), nav_samples(&nav));
    let (s, t) = (
        nav_stats(&nav, ratios(0.01), &drawdowns()),
        nav_stats(&more, ratios(0.01), &drawdowns()),
    );
    assert_eq!(s, t);
}

#[test]
fn a_curve_without_deviation_has_no_ratio_to_it() {
    let nav: Vec<Double> = (1..=10).map(|_| double(5.0)).collect();
    let s = nav_stats(&nav, ratios(0.0), &drawdowns());
    assert!(s.sharpe.is_nan());
    assert_eq!(s.cagr, double(0.1));
}

#[test]
fn peaks_run_and_drawdowns_are_the_deepest() {
    let peaks = running_peaks(&doubles(&[1.0, 3.0, 2.0, 4.0]));
    assert_eq!(peaks, doubles(&[1.0, 3.0, 3.0, 4.0]));
    assert_eq!(max_drawdown(&doubles(&[0.0, -0.2, -0.1])), double(-0.2));
    assert_eq!(max_drawdown(&vec![]), double(0.0));
}

#[test]
fn a_curve_is_kept_from_its_start() {
    let axis = days(&[1, 2, 3]);
    assert_eq!(trim(&axis, None), 0);
    assert_eq!(trim(&axis, Some(axis[1])), 1);
    assert_eq!(trim(&axis, Some(Instant { nanos: 9 * DAY })), 3);
}

#[test]
fn a_table_is_written_by_date() {
    let mut table = ReportTable::new();
    let axis = days(&[0, 1, 2]);
    let start = Some(axis[1]);
    assert_eq!(table.add("index", start, &axis, &doubles(&[1.0, 2.0, 3.0])), Ok(()));
    assert_eq!(table.add("a", start, &axis, &doubles(&[4.0, 5.0, 6.0])), Ok(()));
    assert_eq!(table.points(), 2);
    assert_eq!(table.column(1), &doubles(&[5.0, 6.0]));
    let csv = table.write(&vec![text(&["2", "3"]), text(&["5", "6"])]);
    assert_eq!(csv, "date,index,a\n1970-01-02,2,5\n1970-01-03,3,6\n");
}

#[test]
fn a_curve_of_another_length_is_refused() {
    let mut table = ReportTable::new();
    assert_eq!(table.add("a", None, &days(&[0, 1]), &doubles(&[1.0, 2.0])), Ok(()));
    assert_eq!(
        table.add("b", None, &days(&[0]), &doubles(&[1.0])),
        Err("misaligned NAV curves".to_string())
    );
    assert_eq!(table.write(&vec![text(&["1", "2"])]), "date,a\n1970-01-01,1\n1970-01-02,2\n");
}

#[test]
fn an_empty_table_has_a_header() {
    assert_eq!(ReportTable::new().write(&vec![]), "date\n");
}

#[test]
fn cash_stands_in_its_place() {
    let mut table = WeightsTable::new();
    let symbols = text(&["A", "B"]);
    let books = vec![
        doubles(&[0.25, 0.125]),
        doubles(&[0.25, 0.5]),
        doubles(&[0.0, 0.5]),
        doubles(&[0.75]),
    ];
    let cash = doubles(&[0.625, 0.25, 0.5, 0.25]);
    table.add("p", &symbols, double(0.0), &days(&[0, 1, 2, 3]), &books, &cash);
    let rows: Vec<(&str, Double)> =
        table.rows().iter().map(|r| (r.symbol.as_str(), r.weight)).collect();
    assert_eq!(
        rows,
        vec![
            ("CASH", double(0.625)),
            ("A", double(0.25)),
            ("B", double(0.125)),
            ("B", double(0.5)),
            ("A", double(0.25)),
            ("CASH", double(0.25)),
            ("B", double(0.5)),
            ("CASH", double(0.5)),
            ("A", double(0.75)),
            ("CASH", double(0.25)),
        ]
    );
}

#[test]
fn weights_are_written_largest_first_with_cash() {
    let mut table = WeightsTable::new();
    let symbols = text(&["A", "B", "C", "D"]);
    let books = vec![doubles(&[0.2, 0.5, 0.001, f64::NAN]), doubles(&[0.3, 0.3, 0.4, -0.1])];
    let cash = doubles(&[0.299, 0.0]);
    table.add("p", &symbols, double(0.005), &days(&[0, 30]), &books, &cash);
    assert_eq!(table.len(), 6);
    let rows = table.rows();
    assert_eq!(rows[0].symbol, "B");
    assert_eq!(rows[0].portfolio, "p");
    assert_eq!(rows[0].weight, double(0.5));
    let csv = table.write(&text(&["0.5", "0.299", "0.2", "0.4", "0.3", "0.3"]));
    assert_eq!(
        csv,
        "date,portfolio,symbol,weight\n\
         1970-01-01,p,B,0.5\n\
         1970-01-01,p,CASH,0.299\n\
         1970-01-01,p,A,0.2\n\
         1970-01-31,p,C,0.4\n\
         1970-01-31,p,A,0.3\n\
         1970-01-31,p,B,0.3\n"
    );
}

#[test]
fn dust_is_dropped_even_without_a_threshold() {
    let mut table = WeightsTable::new();
    let books = vec![doubles(&[1e-12, 1e-8])];
    table.add("p", &text(&["A", "B"]), double(0.0), &days(&[0]), &books, &doubles(&[1e-10]));
    assert_eq!(table.len(), 1);
    assert_eq!(table.rows()[0].symbol, "B");
}

fn scored(label: &str, gross: &[f64]) -> PortfolioStats {
    let nav = doubles(&[1.0, 2.0]);
    stats(label, &nav, &doubles(gross), ratios(0.01), &drawdowns(), double(1.5))
}

fn curves(axis: &[i64], nav: &[f64]) -> Curves {
    Curves {
        instants: days(axis),
        nav: doubles(nav),
        turnover: doubles(nav),
        gross: doubles(nav),
    }
}

#[test]
fn a_book_is_scored_by_its_largest_exposure() {
    let s = scored("a", &[0.5, f64::NAN, 0.9, f64::INFINITY, 0.7]);
    assert_eq!(s.label, "a");
    assert_eq!(s.final_value, double(2.0));
    assert_eq!(s.turnover, double(1.5));
    assert_eq!(s.max_gross, double(0.9));
    assert_eq!(largest(&vec![]), double(0.0));
}

#[test]
fn turnover_is_told_of_ten_samples() {
    let curve: Vec<Double> = (0..10).map(|i| double(i as f64)).collect();
    let span = annualized(&curve).unwrap();
    assert_eq!(span.first, double(0.0));
    assert_eq!(span.last, double(9.0));
    assert_eq!(span.samples, 10);
    assert!(annualized(&doubles(&[1.0, 2.0, f64::NAN])).is_none());
}

#[test]
fn companions_are_trimmed_with_the_nav() {
    let all = curves(&[0, 1, 2], &[1.0, 2.0, 3.0]);
    let c = all.trimmed(Some(Instant { nanos: DAY })).unwrap();
    assert_eq!(c.nav, doubles(&[2.0, 3.0]));
    assert_eq!(c.turnover, doubles(&[2.0, 3.0]));
    assert_eq!(c.instants, days(&[1, 2]));
    let mut short = curves(&[0, 1], &[1.0, 2.0]);
    short.turnover = doubles(&[1.0]);
    assert_eq!(short.trimmed(None).err(), Some("misaligned turnover curve".to_string()));
    let mut short = curves(&[0, 1], &[1.0, 2.0]);
    short.gross = doubles(&[1.0, 2.0, 3.0]);
    assert_eq!(short.trimmed(None).err(), Some("misaligned exposure curve".to_string()));
}

#[test]
fn a_report_writes_its_books() {
    let mut report = Report::new();
    assert_eq!(report.add(scored("index_top3", &[1.0]), curves(&[0, 1], &[1.0, 2.0])), Ok(()));
    assert_eq!(report.add(scored("book", &[1.2]), curves(&[0, 1], &[3.0, 4.0])), Ok(()));
    assert_eq!(
        report.add(scored("late", &[1.0]), curves(&[0], &[1.0])),
        Err("misaligned NAV curves".to_string())
    );
    assert_eq!(report.points(), 2);
    assert_eq!(report.stats().len(), 2);
    assert_eq!(report.nav(1), &doubles(&[3.0, 4.0]));
    let csv = report.write_nav(&vec![text(&["1", "2"]), text(&["3", "4"])]);
    assert_eq!(csv, "date,index_top3,book\n1970-01-01,1,3\n1970-01-02,2,4\n");
}

#[test]
fn every_book_over_the_limit_is_named() {
    let mut report = Report::new();
    for (label, gross) in [("a", 1.0), ("b", 1.5), ("c", 2.0)] {
        let added = report.add(scored(label, &[gross]), curves(&[0], &[1.0]));
        assert_eq!(added, Ok(()));
    }
    let texts = text(&["1.0000", "1.5000", "2.0000"]);
    assert_eq!(
        report.enforce_gross(double(1.0 + 1e-6), "1", &texts),
        Err("gross exposure above the scorer's limit of 1: b at 1.5000, c at 2.0000".to_string())
    );
    assert_eq!(report.enforce_gross(double(2.0), "2", &texts), Ok(()));
}
