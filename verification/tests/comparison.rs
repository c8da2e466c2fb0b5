use criterion::compare::{compare, p_value, rel_change, t_statistic, ComparisonResult};
use criterion::dist::Distribution;
use criterion::frac::Frac;
use criterion::resample::Resampler;
use criterion::sample::Sample;
use criterion::{Config, Error, DIST_CAP, REL_SCALE};

fn sample(values: &[i64]) -> Sample {
    Sample::new(values.to_vec()).expect("valid sample")
}

fn config(seed: u64) -> Config {
    Config {
        confidence_level: Frac::new(95, 100),
        significance_level: Frac::new(5, 100),
        noise_threshold: Frac::new(5, 100),
        nresamples: 200,
        seed: Some(seed),
    }
}

#[test]
fn t_statistic_zero_for_identical_samples() {
    let a = sample(&[10, 12, 11, 13, 9]);
    assert_eq!(t_statistic(&a, &a), 0);
}

#[test]
fn t_statistic_negates_when_swapped() {
    let a = sample(&[10, 12, 11, 13, 9]);
    let b = sample(&[20, 22, 21, 23, 19]);
    assert_eq!(t_statistic(&a, &b), -t_statistic(&b, &a));
}

#[test]
fn t_statistic_saturates_on_zero_variance() {
    let a = sample(&[20, 20, 20, 20, 20]);
    let b = sample(&[10, 10, 10, 10, 10]);
    assert_eq!(t_statistic(&a, &b), DIST_CAP);
    assert_eq!(t_statistic(&b, &a), -DIST_CAP);
}

#[test]
fn p_value_counts_ties_as_exceeding() {
    let d = Distribution::new(vec![-5, 1, 3], 1_048_576).unwrap();
    let p = p_value(3, &d);
    assert_eq!((p.num, p.den), (2, 3));
    let swapped = p_value(-3, &d);
    assert_eq!((swapped.num, swapped.den), (2, 3));
}

#[test]
fn self_comparison_is_non_significant() {
    // current == baseline: t = 0, every null value ties, p = 1.
    let a = sample(&[10, 10, 10, 10, 10]);
    let c = compare(&a, &a, &config(42), &mut Resampler::seeded(42)).unwrap();
    assert_eq!(c.t_value, 0);
    assert_eq!(c.p_value.num, c.p_value.den);
    assert!(!c.regressed);
    assert_eq!(c.mean_outcome, ComparisonResult::NonSignificant);
    assert_eq!(c.median_outcome, ComparisonResult::NonSignificant);
}

#[test]
fn self_comparison_of_noisy_sample_never_regresses() {
    let a = sample(&[10, 14, 11, 13, 9, 12, 15, 8]);
    let c = compare(&a, &a, &config(7), &mut Resampler::seeded(7)).unwrap();
    assert_eq!(c.t_value, 0);
    assert_eq!(c.p_value.num, c.p_value.den);
    assert!(!c.regressed);
}

#[test]
fn doubled_times_classify_as_regressed() {
    // Relative mean change (20 - 10) / 10 = +1.0, far over the 5% noise
    // threshold; every resample of a constant sample is constant, so both
    // intervals are the point [1.0, 1.0].
    let current = sample(&[20, 20, 20, 20, 20]);
    let baseline = sample(&[10, 10, 10, 10, 10]);
    let c = compare(&current, &baseline, &config(3), &mut Resampler::seeded(3)).unwrap();
    assert_eq!(c.relative_mean.point_estimate.num, REL_SCALE);
    assert_eq!(c.relative_median.point_estimate.num, REL_SCALE);
    assert_eq!(c.mean_outcome, ComparisonResult::Regressed);
    assert_eq!(c.median_outcome, ComparisonResult::Regressed);
    // Every per-sample resample of a constant sample is constant, so the
    // relative distributions hold only +1.0 and the intervals collapse.
    assert!(c.relative_mean_distribution.values().iter().all(|&v| v == REL_SCALE));
    assert!(c.relative_median_distribution.values().iter().all(|&v| v == REL_SCALE));
    assert_eq!(c.relative_mean.confidence_interval.lower_bound.num, REL_SCALE);
    assert_eq!(c.relative_mean.confidence_interval.upper_bound.num, REL_SCALE);
    assert_eq!(c.relative_mean.standard_error.num, 0);
    assert_eq!(c.base_avg_times.values(), baseline.values());
    // The overall judgement is exactly "t-test rejects AND every
    // statistic regressed".
    let significant = c.p_value.lt(&Frac::new(5, 100));
    assert_eq!(c.regressed, significant);
}

#[test]
fn improvement_is_not_a_regression() {
    let current = sample(&[10, 10, 10, 10, 10]);
    let baseline = sample(&[20, 20, 20, 20, 20]);
    let c = compare(&current, &baseline, &config(3), &mut Resampler::seeded(3)).unwrap();
    // (10 - 20) / 20 = -0.5.
    assert_eq!(c.relative_mean.point_estimate.num, -REL_SCALE / 2);
    assert_eq!(c.mean_outcome, ComparisonResult::Improved);
    assert!(!c.regressed);
}

#[test]
fn compare_rejects_single_point_samples() {
    let a = sample(&[10]);
    let b = sample(&[10, 11]);
    assert_eq!(
        compare(&a, &b, &config(1), &mut Resampler::seeded(1)).unwrap_err(),
        Error::InvalidInput
    );
}

#[test]
fn compare_needs_enough_resamples() {
    let a = sample(&[10, 11, 12]);
    let mut cfg = config(1);
    cfg.nresamples = 1;
    assert_eq!(
        compare(&a, &a, &cfg, &mut Resampler::seeded(1)).unwrap_err(),
        Error::InsufficientResamples
    );
}

#[test]
fn seeded_resampling_is_reproducible() {
    let a = sample(&[10, 14, 11, 13, 9, 12, 15, 8]);
    let c1 = compare(&a, &a, &config(11), &mut Resampler::seeded(11)).unwrap();
    let c2 = compare(&a, &a, &config(11), &mut Resampler::seeded(11)).unwrap();
    assert_eq!(c1.t_distribution.values(), c2.t_distribution.values());
    assert_eq!(c1.p_value, c2.p_value);
}

#[test]
fn resample_draws_only_source_values() {
    let mut r = Resampler::seeded(5);
    let source = vec![1, 2];
    for _ in 0..20 {
        let picked = r.resample(&source);
        assert_eq!(picked.len(), 2);
        for v in picked {
            assert!(v == 1 || v == 2);
        }
    }
    // A seeded resampler draws varying indices, not a fixed one.
    let mut r1 = Resampler::seeded(5);
    let many: Vec<i64> = (0..100).collect();
    let picked = r1.resample(&many);
    assert!(picked.iter().any(|&v| v != picked[0]));
}

#[test]
fn fresh_resampler_draws_source_values() {
    let mut r = Resampler::fresh();
    let source = vec![3, 4, 5];
    let picked = r.resample(&source);
    assert_eq!(picked.len(), 3);
    for v in picked {
        assert!(source.contains(&v));
    }
}

#[test]
fn t_statistic_matches_hand_computation() {
    // a = [0,4]: mean 2, variance 8; b = [0,0]: mean 0, variance 0.
    // t = (2 - 0) / sqrt(8/2 + 0) = 1, so one T_SCALE unit in fixed point.
    let a = sample(&[0, 4]);
    let b = sample(&[0, 0]);
    assert_eq!(t_statistic(&a, &b), criterion::T_SCALE);
}

#[test]
fn relative_change_is_exact_parts_per_billion() {
    // (1.5 - 1) / 1 = +0.5.
    let half_up = rel_change(&Frac::new(3, 2), &Frac::new(1, 1));
    assert_eq!(half_up, REL_SCALE / 2);
    // a zero baseline saturates by the sign of the change.
    let blow_up = rel_change(&Frac::new(1, 1), &Frac::new(0, 1));
    assert_eq!(blow_up, DIST_CAP);
}
