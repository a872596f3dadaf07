//! Values, orders, and what is selected by them.
use tradingflow_agents::double::Double;
use tradingflow_agents::features::lanes::{finite_lanes_of, impute_into, market_return_lanes};
use tradingflow_agents::features::scan::{Scan2, channels, range_mom};
use tradingflow_agents::quotes::{DELIST_DAYS, Offer, Quote, SyntheticQuotes};
use tradingflow_agents::sort::sorted_places;
use tradingflow_agents::text::{comes_before, same_text};
use tradingflow_agents::universe::CapWeightedTopK;

fn double(x: f64) -> Double {
    Double { bits: x.to_bits() }
}

fn float(x: Double) -> f64 {
    f64::from_bits(x.bits)
}

fn doubles(v: &[f64]) -> Vec<Double> {
    v.iter().map(|&x| double(x)).collect()
}

const VALUES: [f64; 12] = [
    0.0,
    -0.0,
    1.0,
    -1.0,
    1e-300,
    -1e-300,
    f64::MAX,
    f64::MIN,
    f64::MIN_POSITIVE,
    f64::INFINITY,
    f64::NEG_INFINITY,
    f64::NAN,
];

#[test]
fn values_compare_as_numbers_do() {
    for a in VALUES {
        let x = double(a);
        assert_eq!(x.is_nan(), a.is_nan());
        assert_eq!(x.is_finite(), a.is_finite());
        assert_eq!(x.is_usable(), a.is_finite() && a > 0.0);
        for b in VALUES {
            let y = double(b);
            assert_eq!(x.is_below(y), a < b, "{a} {b}");
            assert_eq!(x.is_at_most(y), a <= b, "{a} {b}");
            let greater = float(x.greater_of(y));
            let expected = a.max(b);
            assert!(greater == expected || (greater.is_nan() && expected.is_nan()), "{a} {b}");
        }
    }
    assert!(Double::missing().is_nan());
    assert_eq!(float(Double::zero()), 0.0);
    assert_eq!(float(Double::infinity()), f64::INFINITY);
}

#[test]
fn the_order_puts_values_in_a_line() {
    assert!(double(-2.0).order() < double(-1.0).order());
    assert!(double(-1.0).order() < double(0.0).order());
    assert_eq!(double(-0.0).order(), double(0.0).order());
    assert!(double(1.0).order() < double(f64::INFINITY).order());
}

#[test]
fn texts_compare_as_strings_do() {
    let texts = ["", "a", "ab", "b", "Z", "\u{4e2d}", "\u{ff01}", "\u{1f600}", "a\u{4e2d}"];
    for a in texts {
        for b in texts {
            assert_eq!(comes_before(a, b), a < b, "{a} {b}");
            assert_eq!(same_text(a, b), a == b);
        }
    }
}

#[test]
fn sorting_keeps_equal_keys_in_place() {
    assert_eq!(sorted_places(&vec![3, 1, 2]), vec![1, 2, 0]);
    assert_eq!(sorted_places(&vec![5, 1, 5, 1]), vec![1, 3, 0, 2]);
    assert_eq!(sorted_places(&vec![]), vec![]);
    assert_eq!(sorted_places(&vec![i64::MAX, i64::MIN]), vec![1, 0]);
}

#[test]
fn the_universe_holds_the_greatest_caps() {
    let mut top = CapWeightedTopK::init(2);
    let caps = doubles(&[3.0, f64::NAN, 9.0, 0.0, 5.0, f64::INFINITY, -1.0]);
    assert_eq!(top.selected(), &vec![]);
    top.compute(false, &caps);
    assert_eq!(top.selected(), &vec![]);
    top.compute(true, &caps);
    assert_eq!(top.selected(), &vec![2, 4]);
    top.compute(false, &doubles(&[100.0, 1.0]));
    assert_eq!(top.selected(), &vec![2, 4]);
    top.compute(true, &doubles(&[f64::NAN, 7.0]));
    assert_eq!(top.selected(), &vec![1]);
    top.compute(true, &doubles(&[f64::NAN, 0.0]));
    assert_eq!(top.selected(), &vec![]);
}

#[test]
fn equal_caps_are_taken_in_lane_order() {
    let mut top = CapWeightedTopK::init(2);
    top.compute(true, &doubles(&[4.0, 8.0, 4.0]));
    assert_eq!(top.selected(), &vec![1, 0]);
    let mut none = CapWeightedTopK::init(0);
    none.compute(true, &doubles(&[4.0]));
    assert_eq!(none.selected(), &vec![]);
}

/// A close with its spread, inside an interval about `prev`.
fn offer(close: f64, prev: f64) -> Offer {
    Offer {
        close: double(close),
        bid: double(close - 0.01),
        ask: double(close + 0.01),
        lower: double((prev * 0.9 * 100.0).round() / 100.0),
        upper: double((prev * 1.1 * 100.0).round() / 100.0),
    }
}

fn quote(flag: bool, bid: f64, ask: f64) -> Quote {
    Quote { flag, bid: double(bid), ask: double(ask) }
}

#[test]
fn quotes_stay_inside_the_price_limits() {
    let inf = f64::INFINITY;
    let mut book = SyntheticQuotes::init(3, DELIST_DAYS);
    assert_eq!(book.anchor(0), None);
    let first = book.compute(
        &vec![true, true, false],
        &vec![offer(10.0, f64::NAN), offer(20.0, f64::NAN), offer(5.0, f64::NAN)],
    );
    assert_eq!(
        first,
        vec![quote(true, 9.99, 10.01), quote(true, 19.99, 20.01), quote(true, -inf, inf)]
    );
    assert_eq!(book.anchor(0), Some(double(10.0)));
    assert_eq!(book.anchor(2), None);
    let second = book.compute(
        &vec![true, true, true],
        &vec![offer(11.0, 10.0), offer(18.0, 20.0), offer(f64::NAN, f64::NAN)],
    );
    assert_eq!(
        second,
        vec![quote(true, 10.99, inf), quote(true, -inf, 18.01), quote(true, -inf, inf)]
    );
}

#[test]
fn a_stock_without_quotes_is_delisted_and_relisted() {
    let mut book = SyntheticQuotes::init(1, 2);
    let day = |book: &mut SyntheticQuotes, set: bool| {
        book.compute(&vec![set], &vec![offer(10.0, 10.0)])[0].flag
    };
    assert!(day(&mut book, true));
    assert!(day(&mut book, false));
    assert!(day(&mut book, false));
    assert!(!day(&mut book, false));
    assert!(!day(&mut book, false));
    assert!(day(&mut book, true));
}

#[test]
fn no_quote_is_ever_missing() {
    let mut book = SyntheticQuotes::init(2, 5);
    for (set, close) in [(true, 1.0), (false, 2.0), (true, f64::NAN), (true, f64::INFINITY)] {
        for q in book.compute(&vec![set, !set], &vec![offer(close, 1.0), offer(close, 1.0)]) {
            assert!(!q.bid.is_nan() && !q.ask.is_nan());
        }
    }
}

#[test]
fn quotes_are_ordered_and_infinite_on_their_side() {
    let mut book = SyntheticQuotes::init(1, 5);
    let days = [(true, 10.0), (true, 11.0), (false, 11.0), (true, f64::NAN), (true, 9.0)];
    let mut prev = f64::NAN;
    for (set, close) in days {
        let given = offer(close, prev);
        let q = book.compute(&vec![set], &vec![given])[0];
        assert!(q.bid.is_at_most(q.ask));
        assert!(q.bid == given.bid || float(q.bid) == f64::NEG_INFINITY);
        assert!(q.ask == given.ask || float(q.ask) == f64::INFINITY);
        if set && close.is_finite() {
            prev = close;
        } else {
            assert_eq!((float(q.bid), float(q.ask)), (f64::NEG_INFINITY, f64::INFINITY));
        }
    }
}

#[test]
fn range_momentum_splits_by_amplitude() {
    let amp = doubles(&[1.1, 1.5, f64::NAN, 1.2, 1.05, 1.3, 1.4]);
    let ret = doubles(&[0.1, 0.5, 9.0, 0.2, 0.05, 0.3, f64::NAN]);
    let (narrow, wide) = range_mom(&amp, &ret).unwrap();
    assert_eq!(narrow, doubles(&[0.05]));
    assert_eq!(wide, doubles(&[0.5]));
}

#[test]
fn range_momentum_takes_a_fifth_of_the_days() {
    for (days, each) in [(5, 1), (7, 1), (8, 2), (12, 2), (13, 3), (20, 4)] {
        let amp: Vec<Double> = (0..days).map(|i| double(1.0 + i as f64)).collect();
        let ret: Vec<Double> = (0..days).map(|i| double(i as f64)).collect();
        let (narrow, wide) = range_mom(&amp, &ret).unwrap();
        assert_eq!(narrow.len(), each, "{days}");
        assert_eq!(wide.len(), each, "{days}");
        assert_eq!(narrow[0], double(0.0));
        assert_eq!(wide[each - 1], double((days - 1) as f64));
        let k = ((days as f64) * 0.2).round().max(1.0) as usize;
        assert_eq!(k, each);
    }
}

#[test]
fn range_momentum_reads_only_the_traded_days() {
    let amp = doubles(&[1.1, 1.5, 1.2, 1.05, 1.3, 1.4, 1.01, 1.6]);
    let ret = doubles(&[0.1, 0.5, 0.2, 0.05, 0.3, 0.4, 0.01, 0.6]);
    let nan = f64::NAN;
    let amp2 = doubles(&[nan, 1.6, 1.01, 1.4, 1.3, 9.0, 1.05, 1.2, 1.5, 1.1, f64::INFINITY]);
    let ret2 = doubles(&[9.0, 0.6, 0.01, 0.4, 0.3, nan, 0.05, 0.2, 0.5, 0.1, 9.0]);
    assert_eq!(range_mom(&amp, &ret), range_mom(&amp2, &ret2));
    let (narrow, wide) = range_mom(&amp, &ret).unwrap();
    assert_eq!((narrow, wide), (doubles(&[0.01, 0.05]), doubles(&[0.5, 0.6])));
}

#[test]
fn range_momentum_needs_five_days() {
    let amp = doubles(&[1.0, 2.0, 3.0, 4.0]);
    assert!(range_mom(&amp, &amp).is_none());
    let amp = doubles(&[1.0, 2.0, 3.0, 4.0, f64::NAN]);
    assert!(range_mom(&amp, &amp).is_none());
}

#[test]
fn a_scan_waits_for_a_full_window() {
    let scan = Scan2 { window: 21 };
    assert_eq!(scan.start(20, 20), None);
    assert_eq!(scan.start(21, 21), Some(0));
    assert_eq!(scan.start(21, 100), Some(79));
    let rows = vec![doubles(&[1.0, 2.0, 3.0, 4.0]), doubles(&[5.0, 6.0, 7.0, 8.0])];
    assert_eq!(channels(&rows, 0), (doubles(&[1.0, 5.0]), doubles(&[2.0, 6.0])));
    assert_eq!(channels(&rows, 1), (doubles(&[3.0, 7.0]), doubles(&[4.0, 8.0])));
}

#[test]
fn reductions_take_the_lanes_that_count() {
    let ret = doubles(&[0.1, f64::NAN, 0.3, 0.4, 0.5]);
    let weight = doubles(&[1.0, 1.0, 0.0, f64::NAN, 2.0]);
    assert_eq!(market_return_lanes(&ret, &weight), vec![0, 4]);
    assert_eq!(finite_lanes_of(&ret), vec![0, 2, 3, 4]);
    assert_eq!(finite_lanes_of(&vec![]), vec![]);
}

#[test]
fn imputation_fills_only_what_is_missing() {
    let x = doubles(&[1.0, f64::NAN, f64::INFINITY]);
    assert_eq!(impute_into(&x, double(7.0)), doubles(&[1.0, 7.0, f64::INFINITY]));
}
