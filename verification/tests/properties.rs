use stocks::closing_prices;
use stocks::max;
use stocks::min;
use stocks::n_window_sma;
use stocks::price_diff;
use stocks::Quote;

fn to_bits(series: &[f64]) -> Vec<u64> {
    series.iter().map(|x| x.to_bits()).collect()
}

#[test]
fn every_signal_is_absent_on_the_empty_series() {
    let empty: Vec<u64> = Vec::new();
    assert_eq!(min(&empty), None);
    assert_eq!(max(&empty), None);
    assert_eq!(price_diff(&empty), None);
    assert_eq!(n_window_sma(30, &empty), None);
}

#[test]
fn minimum_and_maximum_bound_every_element() {
    let series = [2.0, 3.0, 5.0, 6.0, 1.0, 2.0, 10.0];
    let bits = to_bits(&series);
    let lo = f64::from_bits(min(&bits).unwrap());
    let hi = f64::from_bits(max(&bits).unwrap());
    for x in series.iter() {
        assert!(lo <= *x);
        assert!(*x <= hi);
    }
}

#[test]
fn minimum_and_maximum_handle_negative_prices() {
    let bits = to_bits(&[-3.0, 2.0, -5.5, 0.25]);
    assert_eq!(min(&bits).map(f64::from_bits), Some(-5.5));
    assert_eq!(max(&bits).map(f64::from_bits), Some(2.0));
}

#[test]
fn bit_order_agrees_with_float_order() {
    // Pairs across the whole range, subnormals and infinities included,
    // against the same NaN-ignoring fold over plain doubles.
    let values = [
        f64::NEG_INFINITY,
        -1e300,
        -2.5,
        -1e-308,
        -5e-324,
        -0.0,
        0.0,
        5e-324,
        1e-308,
        1.0,
        2.5,
        1e300,
        f64::INFINITY,
    ];
    for a in values {
        for b in values {
            let bits = to_bits(&[a, b]);
            let lo = f64::from_bits(min(&bits).unwrap());
            let hi = f64::from_bits(max(&bits).unwrap());
            assert_eq!(lo, f64::MAX.min(a).min(b));
            assert_eq!(hi, f64::MIN.max(a).max(b));
        }
    }
}

#[test]
fn minimum_and_maximum_ignore_nan_elements() {
    let bits = to_bits(&[1.0, f64::NAN, 0.5]);
    assert_eq!(min(&bits).map(f64::from_bits), Some(0.5));
    assert_eq!(max(&bits).map(f64::from_bits), Some(1.0));
    // A series of NaN alone leaves the fold at its seed.
    let nan_only = to_bits(&[f64::NAN, f64::NAN]);
    assert_eq!(min(&nan_only).map(f64::from_bits), Some(f64::MAX));
    assert_eq!(max(&nan_only).map(f64::from_bits), Some(f64::MIN));
}

#[test]
fn single_element_difference_vanishes() {
    let terms = price_diff(&to_bits(&[7.5])).unwrap();
    let abs_diff: f64 = f64::from_bits(terms.last) - f64::from_bits(terms.first);
    let rel_diff: f64 = abs_diff / f64::from_bits(terms.denominator);
    assert_eq!(abs_diff, 0.0);
    assert_eq!(rel_diff, 0.0);
}

#[test]
fn zero_first_price_degrades_relative_to_absolute() {
    for series in [&[0.0, 5.0][..], &[-0.0, 3.25, -2.5][..]] {
        let terms = price_diff(&to_bits(series)).unwrap();
        assert_eq!(f64::from_bits(terms.denominator), 1.0);
        let abs_diff: f64 = f64::from_bits(terms.last) - f64::from_bits(terms.first);
        let rel_diff: f64 = abs_diff / f64::from_bits(terms.denominator);
        assert_eq!(rel_diff, abs_diff);
    }
}

#[test]
fn windows_need_at_least_two_elements() {
    let bits = to_bits(&[2.0, 4.5, 5.3]);
    assert_eq!(n_window_sma(0, &bits), None);
    assert_eq!(n_window_sma(1, &bits), None);
    assert!(n_window_sma(2, &bits).is_some());
}

#[test]
fn window_count_matches_series_length() {
    let bits = to_bits(&[2.0, 4.5, 5.3, 6.5, 4.7]);
    assert_eq!(n_window_sma(2, &bits).unwrap().len(), 4);
    assert_eq!(n_window_sma(3, &bits).unwrap().len(), 3);
    assert_eq!(n_window_sma(5, &bits).unwrap().len(), 1);
    assert_eq!(n_window_sma(6, &bits).unwrap().len(), 0);
}

#[test]
fn windows_slide_over_the_series_in_order() {
    let series = [2.0, 4.5, 5.3, 6.5];
    let windows = n_window_sma(2, &to_bits(&series)).unwrap();
    let expected: Vec<Vec<u64>> = vec![
        to_bits(&[2.0, 4.5]),
        to_bits(&[4.5, 5.3]),
        to_bits(&[5.3, 6.5]),
    ];
    assert_eq!(windows, expected);
}

#[test]
fn closing_prices_come_out_in_chronological_order() {
    let quotes = vec![
        Quote { timestamp: 300, adjclose: 3.0f64.to_bits() },
        Quote { timestamp: 100, adjclose: 1.0f64.to_bits() },
        Quote { timestamp: 200, adjclose: 2.0f64.to_bits() },
    ];
    let closes: Vec<f64> = closing_prices(&quotes).into_iter().map(f64::from_bits).collect();
    assert_eq!(closes, vec![1.0, 2.0, 3.0]);
}

#[test]
fn closing_prices_keep_the_arrival_order_of_equal_timestamps() {
    let quotes = vec![
        Quote { timestamp: 200, adjclose: 4.0f64.to_bits() },
        Quote { timestamp: 100, adjclose: 1.0f64.to_bits() },
        Quote { timestamp: 200, adjclose: 5.0f64.to_bits() },
        Quote { timestamp: 100, adjclose: 2.0f64.to_bits() },
    ];
    let closes: Vec<f64> = closing_prices(&quotes).into_iter().map(f64::from_bits).collect();
    assert_eq!(closes, vec![1.0, 2.0, 4.0, 5.0]);
}

#[test]
fn closing_prices_of_no_quotes_are_empty() {
    let quotes: Vec<Quote> = Vec::new();
    assert!(closing_prices(&quotes).is_empty());
}
