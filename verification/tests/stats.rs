use criterion::dist::Distribution;
use criterion::estimate::{Estimate, Statistic};
use criterion::frac::Frac;
use criterion::sample::Sample;
use criterion::tukey::{classify, Label};
use criterion::Error;

fn sample(values: &[i64]) -> Sample {
    Sample::new(values.to_vec()).expect("valid sample")
}

#[test]
fn sample_rejects_empty() {
    assert_eq!(Sample::new(vec![]).unwrap_err(), Error::InvalidInput);
}

#[test]
fn sample_rejects_out_of_range_value() {
    let big = criterion::MAX_TIME + 1;
    assert_eq!(Sample::new(vec![1, big]).unwrap_err(), Error::InvalidInput);
}

#[test]
fn mean_is_exact_fraction() {
    let s = sample(&[1, 2, 3, 4, 5]);
    let m = s.mean();
    assert_eq!((m.num, m.den), (15, 5));
}

#[test]
fn median_of_odd_sample() {
    let s = sample(&[5, 1, 3, 2, 4]);
    let med = s.percentiles().median();
    // position (5-1)*2/4 = 2: the middle value, 3.
    assert_eq!((med.num, med.den), (12, 4));
}

#[test]
fn median_interpolates_even_sample() {
    let s = sample(&[4, 1, 3, 2]);
    let med = s.percentiles().median();
    // position (4-1)*2/4 = 1.5: halfway between 2 and 3.
    assert_eq!((med.num, med.den), (10, 4));
}

#[test]
fn quartiles_interpolate() {
    let s = sample(&[1, 2, 3, 4, 5, 100]);
    let pct = s.percentiles();
    let q1 = pct.quartile(1);
    let q3 = pct.quartile(3);
    // positions 1.25 and 3.75: 2.25 and 4.75.
    assert_eq!((q1.num, q1.den), (9, 4));
    assert_eq!((q3.num, q3.den), (19, 4));
}

#[test]
fn std_dev_is_scaled_floor_sqrt() {
    let s = sample(&[0, 2]);
    let sd = s.std_dev();
    // variance 2; floor(sqrt(2 * 256^2)) = 362.
    assert_eq!((sd.num, sd.den), (362, 256));
}

#[test]
fn median_abs_dev_exact() {
    let s = sample(&[1, 2, 3, 4, 100]);
    let mad = s.median_abs_dev();
    // median 3; |x - 3| = [2,1,0,1,97]; median of deviations = 1.
    assert_eq!((mad.num, mad.den), (16, 16));
}

#[test]
fn outlier_fences_match_quartile_formula() {
    // q1 = 2.25, q3 = 4.75, iqr = 2.5; fences at
    // -5.25, -1.5, 8.5, 12.25 (numerators over 8).
    let s = sample(&[1, 2, 3, 4, 5, 100]);
    let labeled = classify(&s);
    let f = labeled.fences();
    assert_eq!((f.far_low.num, f.far_low.den), (-42, 8));
    assert_eq!((f.near_low.num, f.near_low.den), (-12, 8));
    assert_eq!((f.near_high.num, f.near_high.den), (68, 8));
    assert_eq!((f.far_high.num, f.far_high.den), (98, 8));
}

#[test]
fn outlier_classification_flags_extreme_point() {
    let s = sample(&[1, 2, 3, 4, 5, 100]);
    let labeled = classify(&s);
    let labels = labeled.labels().clone();
    assert_eq!(
        labels,
        vec![
            Label::Normal,
            Label::Normal,
            Label::Normal,
            Label::Normal,
            Label::Normal,
            Label::HighSevere,
        ]
    );
}

#[test]
fn outlier_classification_is_idempotent() {
    let s = sample(&[9, 1, 4, 4, 7, 200, -50]);
    let first = classify(&s);
    let second = classify(&s);
    assert_eq!(first.fences(), second.fences());
    assert_eq!(first.labels(), second.labels());
    assert_eq!(first.values(), second.values());
}

#[test]
fn confidence_interval_picks_rank_values() {
    let values: Vec<i64> = (0..100).collect();
    let d = Distribution::new(values, 1).unwrap();
    let ci = d.confidence_interval(Frac::new(95, 100)).unwrap();
    // ranks floor(100*0.025) = 2 and ceil(100*0.975) = 98.
    assert_eq!((ci.lower_bound.num, ci.lower_bound.den), (2, 1));
    assert_eq!((ci.upper_bound.num, ci.upper_bound.den), (98, 1));
}

#[test]
fn confidence_interval_needs_enough_resamples() {
    let d = Distribution::new(vec![1, 2], 1).unwrap();
    assert_eq!(
        d.confidence_interval(Frac::new(95, 100)).unwrap_err(),
        Error::InsufficientResamples
    );
}

#[test]
fn standard_error_of_distribution() {
    let d = Distribution::new(vec![0, 2], 1).unwrap();
    let se = d.standard_error();
    // deviations about the floored mean 1: 1 + 1 = 2; floor(sqrt(2*256^2)) = 362.
    assert_eq!((se.num, se.den), (362, 256));
}

#[test]
fn estimate_packages_point_interval_and_error() {
    let values: Vec<i64> = (0..100).collect();
    let d = Distribution::new(values, 1).unwrap();
    let e = Estimate::new(Frac::new(50, 1), &d, Frac::new(95, 100)).unwrap();
    assert_eq!((e.point_estimate.num, e.point_estimate.den), (50, 1));
    assert_eq!(e.confidence_interval.lower_bound.num, 2);
    assert_eq!(e.confidence_interval.upper_bound.num, 98);
    assert_eq!(e.confidence_interval.confidence_level, Frac::new(95, 100));
}

#[test]
fn statistic_labels() {
    assert_eq!(Statistic::Mean.label(), "mean");
    assert_eq!(Statistic::Median.label(), "median");
    assert_eq!(Statistic::MedianAbsDev.label(), "MAD");
    assert_eq!(Statistic::Slope.label(), "slope");
    assert_eq!(Statistic::StdDev.label(), "SD");
}

#[test]
fn frac_ordering_cross_multiplies() {
    let a = Frac::new(1, 3);
    let b = Frac::new(2, 5);
    assert!(a.lt(&b));
    assert!(a.le(&b));
    assert!(!b.le(&a));
    let c = Frac::new(2, 6);
    assert!(a.le(&c) && c.le(&a));
}
