//! The chip distribution, against a reconstruction of the whole window.
use tradingflow_agents::double::Double;
use tradingflow_agents::features::chip::{
    BINS, Band, CHIP_NAMES, Cell, ChipDist, Step, band_of, bin_of, clamp_turnover, is_readable,
    modal_bin,
};

const LANES: usize = 3;
const W: usize = 60;
const TICKS: usize = 300;

fn double(x: f64) -> Double {
    Double { bits: x.to_bits() }
}

fn float(x: Double) -> f64 {
    f64::from_bits(x.bits)
}

fn lcg(state: &mut u64) -> f64 {
    *state = state.wrapping_mul(6364136223846793005).wrapping_add(1442695040888963407);
    (*state >> 11) as f64 / (1u64 << 53) as f64
}

fn synthetic_rows() -> Vec<Vec<(f64, f64)>> {
    let mut state = 42u64;
    let mut prices = [50.0, 8.0, 300.0];
    (0..TICKS)
        .map(|i| {
            (0..LANES)
                .map(|j| {
                    prices[j] *= ((lcg(&mut state) - 0.5) * 0.1).exp();
                    let mut p = prices[j];
                    let mut t = lcg(&mut state).powi(2) * 0.4;
                    if (i + 7 * j) % 37 == 0 {
                        p = f64::NAN;
                    }
                    if (i + 11 * j) % 53 == 0 {
                        t = f64::NAN;
                    }
                    if (i + 13 * j) % 29 == 0 {
                        t = 0.0;
                    }
                    if j == 0 && i == 150 {
                        t = 1.0;
                    }
                    if j == 0 && i == 170 {
                        t = 2.5;
                    }
                    (p, t)
                })
                .collect()
        })
        .collect()
}

fn reference(price: &[f64], turn: &[f64]) -> [f64; 10] {
    let w = price.len();
    let mut weight = vec![0.0f64; w];
    let mut surv = 1.0f64;
    for i in (0..w).rev() {
        let t = if turn[i].is_finite() { turn[i].clamp(0.0, 1.0) } else { 0.0 };
        weight[i] = if price[i].is_finite() && price[i] > 0.0 { t * surv } else { 0.0 };
        surv *= 1.0 - t;
    }
    let p_cur = price[w - 1];
    let total: f64 = weight.iter().sum();
    if !(p_cur.is_finite() && p_cur > 0.0) || total <= 0.0 {
        return [f64::NAN; 10];
    }
    let mut ret = vec![0.0f64; w];
    for i in 0..w {
        weight[i] /= total;
        ret[i] = if weight[i] > 0.0 { p_cur / price[i] - 1.0 } else { 0.0 };
    }
    let mut avg = 0.0;
    for i in 0..w {
        avg += weight[i] * ret[i];
    }
    let (mut m2, mut m3, mut m4) = (0.0, 0.0, 0.0);
    for i in 0..w {
        let d = ret[i] - avg;
        let (wd, d2) = (weight[i], d * d);
        m2 += wd * d2;
        m3 += wd * d2 * d;
        m4 += wd * d2 * d2;
    }
    let std = m2.sqrt();
    let skew = if m2 > 1e-16 { m3 / (m2 * std) } else { f64::NAN };
    let kurt = if m2 > 1e-16 { m4 / (m2 * m2) } else { f64::NAN };
    let (mut bal, mut pl, mut ps, mut ls, mut ll) = (0.0, 0.0, 0.0, 0.0, 0.0);
    let mut bins = [0.0f64; 50];
    for i in 0..w {
        let (r, wd) = (ret[i], weight[i]);
        if wd <= 0.0 {
            continue;
        }
        if r > 0.10 {
            pl += wd;
        } else if r > 0.02 {
            ps += wd;
        } else if r >= -0.02 {
            bal += wd;
        } else if r >= -0.10 {
            ls += wd;
        } else {
            ll += wd;
        }
        let b = (((r + 0.5) / 0.02).floor() as isize).clamp(0, 49) as usize;
        bins[b] += wd;
    }
    let (mut maxb, mut maxv) = (0usize, bins[0]);
    for (b, &v) in bins.iter().enumerate().skip(1) {
        if v > maxv {
            maxv = v;
            maxb = b;
        }
    }
    let max_prob_ret = -0.5 + (maxb as f64 + 0.5) * 0.02;
    [avg, std, skew, kurt, max_prob_ret, bal, pl, ps, ls, ll]
}

/// The floating-point state that follows the steps.
struct Ring {
    wgt: Vec<Vec<f64>>,
    price: Vec<Vec<f64>>,
    sums: Vec<[f64; 5]>,
}

impl Ring {
    fn new() -> Ring {
        Ring {
            wgt: vec![vec![0.0; W]; LANES],
            price: vec![vec![0.0; W]; LANES],
            sums: vec![[0.0; 5]; LANES],
        }
    }

    fn powers(weight: f64, price: f64) -> [f64; 5] {
        let x = 1.0 / price;
        [weight, weight * x, weight * x * x, weight * x * x * x, weight * x * x * x * x]
    }

    fn follow(&mut self, step: Step) {
        match step {
            Step::Evict { lane, slot } => {
                let w = self.wgt[lane][slot];
                if w > 0.0 {
                    let powers = Ring::powers(w, self.price[lane][slot]);
                    for k in 0..5 {
                        self.sums[lane][k] -= powers[k];
                    }
                }
                self.wgt[lane][slot] = 0.0;
                self.price[lane][slot] = 0.0;
            }
            Step::Decay { lane, by } => {
                for w in &mut self.wgt[lane] {
                    *w *= float(by);
                }
                for s in &mut self.sums[lane] {
                    *s *= float(by);
                }
            }
            Step::Deposit { lane, slot, price, weight } => {
                self.wgt[lane][slot] = float(weight);
                self.price[lane][slot] = float(price);
                let powers = Ring::powers(float(weight), float(price));
                for k in 0..5 {
                    self.sums[lane][k] += powers[k];
                }
            }
            Step::Clear { lane, slot } => {
                self.wgt[lane][slot] = 0.0;
                self.price[lane][slot] = 0.0;
            }
        }
    }

    fn read(&self, rows: usize, lane: usize, p: f64) -> [f64; 10] {
        let t = self.sums[lane];
        if !is_readable(rows, W, double(p), double(t[0])) {
            return [f64::NAN; 10];
        }
        let q1 = t[1] / t[0] * p;
        let q2 = t[2] / t[0] * (p * p);
        let q3 = t[3] / t[0] * (p * p * p);
        let q4 = t[4] / t[0] * (p * p * p * p);
        let avg = q1 - 1.0;
        let r2 = q2 - 2.0 * q1 + 1.0;
        let r3 = q3 - 3.0 * q2 + 3.0 * q1 - 1.0;
        let r4 = q4 - 4.0 * q3 + 6.0 * q2 - 4.0 * q1 + 1.0;
        let m2 = r2 - avg * avg;
        let m3 = r3 - 3.0 * avg * r2 + 2.0 * avg * avg * avg;
        let m4 = r4 - 4.0 * avg * r3 + 6.0 * (avg * avg) * r2 - 3.0 * avg.powi(4);
        let least = 1e-16f64.max(1e-13 * (q2.abs() + q1 * q1));
        let (std, skew, kurt) = if m2 > least {
            (m2.sqrt(), m3 / (m2 * m2.sqrt()), m4 / (m2 * m2))
        } else {
            (0.0, f64::NAN, f64::NAN)
        };
        let mut bands = [0.0f64; 5];
        let mut bins = vec![0.0f64; BINS];
        for slot in 0..W {
            let w = self.wgt[lane][slot];
            if w <= 0.0 {
                continue;
            }
            let r = p / self.price[lane][slot] - 1.0;
            let k = match band_of(double(r)) {
                Band::Balance => 0,
                Band::LargeProfit => 1,
                Band::SmallProfit => 2,
                Band::SmallLoss => 3,
                Band::LargeLoss => 4,
            };
            bands[k] += w;
            bins[bin_of(((r + 0.5) / 0.02).floor() as i64)] += w;
        }
        let total: f64 = bands.iter().sum();
        let weights: Vec<Double> = bins.iter().map(|&w| double(w)).collect();
        let mode = -0.5 + (modal_bin(&weights) as f64 + 0.5) * 0.02;
        [
            avg,
            std,
            skew,
            kurt,
            mode,
            bands[0] / total,
            bands[1] / total,
            bands[2] / total,
            bands[3] / total,
            bands[4] / total,
        ]
    }
}

fn cells(row: &[(f64, f64)]) -> Vec<Cell> {
    row.iter()
        .map(|&(p, t)| {
            let turnover = clamp_turnover(double(t));
            Cell { price: double(p), turnover, survival: double(1.0 - float(turnover)) }
        })
        .collect()
}

#[test]
fn chip_dist_matches_windowed_reference() {
    let rows = synthetic_rows();
    let mut dist = ChipDist::new(W);
    dist.init(LANES);
    let mut ring = Ring::new();
    for tick in 0..TICKS {
        let end = tick + 1;
        let start = end.saturating_sub(W);
        let (from, to) = dist.pending(start, end);
        assert_eq!((from, to), (tick, end));
        let arriving: Vec<Vec<Cell>> = (from..to).map(|i| cells(&rows[i])).collect();
        for step in dist.advance(start, end, &arriving) {
            ring.follow(step);
        }
        for lane in 0..LANES {
            let got = ring.read(end - start, lane, rows[tick][lane].0);
            let want = if tick + 1 < W {
                [f64::NAN; 10]
            } else {
                let window = &rows[tick + 1 - W..=tick];
                let price: Vec<f64> = window.iter().map(|r| r[lane].0).collect();
                let turn: Vec<f64> = window.iter().map(|r| r[lane].1).collect();
                reference(&price, &turn)
            };
            for (c, name) in CHIP_NAMES.into_iter().enumerate() {
                let tol = match c {
                    1..=3 => 1e-6,
                    _ => 1e-9,
                };
                let ok = (got[c].is_nan() && want[c].is_nan())
                    || (got[c] - want[c]).abs() <= tol * (1.0 + want[c].abs());
                assert!(ok, "{name} tick {tick} lane {lane}: got {}, want {}", got[c], want[c]);
            }
        }
    }
}

#[test]
fn clamped_turnovers_take_the_same_steps() {
    let row = [(10.0, f64::NAN), (11.0, 1.5), (12.0, -0.5), (13.0, 0.25), (14.0, f64::INFINITY)];
    let tamed = [(10.0, 0.0), (11.0, 1.0), (12.0, 0.0), (13.0, 0.25), (14.0, 0.0)];
    let steps = |row: &[(f64, f64)]| {
        let mut dist = ChipDist::new(W);
        dist.init(row.len());
        dist.advance(0, 2, &vec![cells(row), cells(row)])
    };
    assert_eq!(steps(&row), steps(&tamed));
    let first = steps(&row)[0];
    assert_eq!(first, Step::Clear { lane: 0, slot: 0 });
}

#[test]
fn turnovers_are_held_between_zero_and_one() {
    for (given, kept) in [
        (0.3, 0.3),
        (-0.1, 0.0),
        (2.5, 1.0),
        (1.0, 1.0),
        (f64::NAN, 0.0),
        (f64::INFINITY, 0.0),
        (f64::NEG_INFINITY, 0.0),
    ] {
        assert_eq!(float(clamp_turnover(double(given))), kept);
    }
}

#[test]
fn a_window_that_jumps_ahead_starts_over() {
    let mut dist = ChipDist::new(3);
    dist.init(1);
    let one = vec![vec![Cell {
        price: double(2.0),
        turnover: double(0.25),
        survival: double(0.75),
    }]];
    let steps = dist.advance(0, 1, &one);
    assert_eq!(
        steps,
        vec![
            Step::Decay { lane: 0, by: double(0.75) },
            Step::Deposit { lane: 0, slot: 0, price: double(2.0), weight: double(0.25) },
        ]
    );
    assert_eq!(dist.pending(5, 6), (5, 6));
    let steps = dist.advance(5, 6, &one);
    assert_eq!(
        steps,
        vec![
            Step::Evict { lane: 0, slot: 0 },
            Step::Decay { lane: 0, by: double(0.75) },
            Step::Deposit { lane: 0, slot: 2, price: double(2.0), weight: double(0.25) },
        ]
    );
}

#[test]
fn a_day_without_a_price_decays_and_deposits_nothing() {
    let mut dist = ChipDist::new(2);
    dist.init(2);
    let row = vec![vec![
        Cell { price: double(f64::NAN), turnover: double(0.5), survival: double(0.5) },
        Cell { price: double(3.0), turnover: double(0.0), survival: double(1.0) },
    ]];
    assert_eq!(
        dist.advance(0, 1, &row),
        vec![
            Step::Decay { lane: 0, by: double(0.5) },
            Step::Clear { lane: 0, slot: 0 },
            Step::Clear { lane: 1, slot: 0 },
        ]
    );
}

#[test]
fn bands_meet_at_their_edges() {
    assert_eq!(band_of(double(0.11)), Band::LargeProfit);
    assert_eq!(band_of(double(0.10)), Band::SmallProfit);
    assert_eq!(band_of(double(0.02)), Band::Balance);
    assert_eq!(band_of(double(-0.02)), Band::Balance);
    assert_eq!(band_of(double(-0.03)), Band::SmallLoss);
    assert_eq!(band_of(double(-0.10)), Band::SmallLoss);
    assert_eq!(band_of(double(-0.11)), Band::LargeLoss);
    assert_eq!(band_of(double(f64::NAN)), Band::LargeLoss);
}

#[test]
fn bins_hold_the_extremes() {
    assert_eq!(bin_of(-1), 0);
    assert_eq!(bin_of(0), 0);
    assert_eq!(bin_of(49), 49);
    assert_eq!(bin_of(50), 49);
    assert_eq!(bin_of(i64::MIN), 0);
    assert_eq!(bin_of(i64::MAX), 49);
}

#[test]
fn the_mode_is_the_first_greatest() {
    let bins = |v: &[f64]| -> Vec<Double> { v.iter().map(|&x| double(x)).collect() };
    assert_eq!(modal_bin(&bins(&[0.1, 0.4, 0.4, 0.2])), 1);
    assert_eq!(modal_bin(&bins(&[0.0, 0.0])), 0);
    assert_eq!(modal_bin(&bins(&[0.0, f64::NAN, 0.3])), 2);
}

#[test]
fn a_lane_is_readable_with_a_price_and_weight() {
    assert!(is_readable(60, 60, double(5.0), double(0.1)));
    assert!(!is_readable(59, 60, double(5.0), double(0.1)));
    assert!(!is_readable(60, 60, double(f64::NAN), double(0.1)));
    assert!(!is_readable(60, 60, double(0.0), double(0.1)));
    assert!(!is_readable(60, 60, double(5.0), double(0.0)));
    assert!(is_readable(60, 60, double(5.0), double(f64::NAN)));
}
