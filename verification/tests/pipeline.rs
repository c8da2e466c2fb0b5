use criterion::analysis::{analyze, average_times, extrapolate_iters, plan_run, Mode};
use criterion::bootstrap::compute_point_estimates;
use criterion::data::Matrix;
use criterion::frac::Frac;
use criterion::plot::{Axis, Plot, Scale, Style};
use criterion::regress::{bootstrap_slope, fit_slope, r_squared};
use criterion::resample::Resampler;
use criterion::sample::Sample;
use criterion::tukey::Label;
use criterion::{Config, Error, R2_SCALE};

fn config(seed: u64) -> Config {
    Config {
        confidence_level: Frac::new(95, 100),
        significance_level: Frac::new(5, 100),
        noise_threshold: Frac::new(5, 100),
        nresamples: 200,
        seed: Some(seed),
    }
}

#[test]
fn exact_linear_data_recovers_slope() {
    let xs: Vec<u64> = vec![1, 2, 3];
    let ys: Vec<i64> = vec![2, 4, 6];
    let s = fit_slope(&xs, &ys).unwrap();
    assert_eq!((s.num, s.den), (28, 14));
    assert_eq!(s.num, 2 * s.den);
}

#[test]
fn exact_linear_data_has_unit_r_squared() {
    let xs: Vec<u64> = vec![1, 2, 3];
    let ys: Vec<i64> = vec![2, 4, 6];
    let s = fit_slope(&xs, &ys).unwrap();
    let r2 = r_squared(&s, &xs, &ys).unwrap();
    assert_eq!((r2.num, r2.den), (R2_SCALE, R2_SCALE));
}

#[test]
fn imperfect_fit_has_r_squared_below_one() {
    let xs: Vec<u64> = vec![1, 2, 3, 4];
    let ys: Vec<i64> = vec![2, 4, 7, 8];
    let s = fit_slope(&xs, &ys).unwrap();
    let r2 = r_squared(&s, &xs, &ys).unwrap();
    assert!(r2.num < R2_SCALE);
    assert!(r2.num > 0);
}

#[test]
fn regression_rejects_all_zero_counts() {
    assert_eq!(
        fit_slope(&vec![0, 0], &vec![1, 2]).unwrap_err(),
        Error::DegenerateInput
    );
}

#[test]
fn regression_rejects_mismatched_lengths() {
    assert_eq!(
        fit_slope(&vec![1, 2, 3], &vec![1, 2]).unwrap_err(),
        Error::InvalidInput
    );
}

#[test]
fn bootstrapped_slope_of_exact_data_is_constant() {
    // Every joint resample of exact linear pairs fits the same slope.
    let xs: Vec<u64> = vec![1, 2, 3, 4];
    let ys: Vec<i64> = vec![3, 6, 9, 12];
    let vals = bootstrap_slope(&xs, &ys, 50, &mut Resampler::seeded(9)).unwrap();
    assert_eq!(vals.len(), 50);
    for v in vals {
        assert_eq!(v, 3 * criterion::SLOPE_SCALE);
    }
}

#[test]
fn average_times_scale_and_divide() {
    let avg = average_times(&vec![1, 2, 4], &vec![10, 10, 10]).unwrap();
    assert_eq!(avg, vec![10_000, 5_000, 2_500]);
}

#[test]
fn average_times_reject_zero_iterations() {
    assert_eq!(
        average_times(&vec![0, 2], &vec![10, 10]).unwrap_err(),
        Error::InvalidInput
    );
}

#[test]
fn extrapolation_scales_and_clamps() {
    assert_eq!(extrapolate_iters(10, 5, 50), 100);
    assert_eq!(extrapolate_iters(0, 5, 50), 1);
    assert_eq!(extrapolate_iters(u64::MAX, 1, u64::MAX), u64::MAX);
}

#[test]
fn point_estimates_cover_their_point() {
    // The bootstrap interval of the mean should contain the sample mean
    // (statistical, tested with a seeded run and plenty of resamples).
    let s = Sample::new(vec![10, 12, 11, 13, 9, 14, 8, 15]).unwrap();
    let (_d, e) = compute_point_estimates(
        &s,
        Frac::new(95, 100),
        1000,
        &mut Resampler::seeded(21),
    )
    .unwrap();
    let mean = e.mean.point_estimate;
    assert!(e.mean.confidence_interval.lower_bound.le(&mean));
    assert!(mean.le(&e.mean.confidence_interval.upper_bound));
    assert!(e
        .mean
        .confidence_interval
        .lower_bound
        .le(&e.mean.confidence_interval.upper_bound));
}

#[test]
fn point_estimates_need_two_points() {
    let s = Sample::new(vec![10]).unwrap();
    assert_eq!(
        compute_point_estimates(&s, Frac::new(95, 100), 100, &mut Resampler::seeded(1))
            .unwrap_err(),
        Error::DegenerateInput
    );
}

#[test]
fn analyze_without_baseline_skips_comparison() {
    let iters: Vec<u64> = vec![1, 2, 3, 4, 5];
    let times: Vec<i64> = vec![10, 20, 30, 40, 50];
    let m = analyze(&iters, &times, &config(2), None).unwrap();
    assert!(m.comparison.is_none());
    // Constant average time of 10000 milli-ticks per iteration.
    assert_eq!(m.avg_times.values(), &vec![10_000i64; 5]);
    assert_eq!(m.avg_times.labels(), &vec![Label::Normal; 5]);
    // slope = sum(x*y)/sum(x^2) = 550/55 = 10 ticks per iteration.
    let slope = m.absolute_estimates.slope.point_estimate;
    assert_eq!((slope.num, slope.den), (550, 55));
    let mean = m.absolute_estimates.mean.point_estimate;
    assert_eq!((mean.num, mean.den), (50_000, 5));
}

#[test]
fn analyze_with_identical_baseline_is_not_regressed() {
    let iters: Vec<u64> = vec![1, 2, 3, 4, 5];
    let times: Vec<i64> = vec![11, 19, 31, 42, 50];
    let baseline_avg = Sample::new(average_times(&iters, &times).unwrap()).unwrap();
    let m = analyze(&iters, &times, &config(2), Some(&baseline_avg)).unwrap();
    let c = m.comparison.expect("comparison present");
    assert_eq!(c.t_value, 0);
    assert!(!c.regressed);
}

#[test]
fn analyze_rejects_mismatched_series() {
    let r = analyze(&vec![1, 2], &vec![10], &config(2), None);
    assert_eq!(r.unwrap_err(), Error::InvalidInput);
}

#[test]
fn matrix_serializes_rows_little_endian() {
    let rows = vec![vec![1u64, 2u64], vec![3u64, 4u64]];
    let m = Matrix::new(&rows, 2).unwrap();
    assert_eq!(m.nrows(), 2);
    assert_eq!(m.ncols(), 2);
    let bytes = m.bytes();
    assert_eq!(bytes.len(), 32);
    assert_eq!(bytes[0], 1);
    assert_eq!(bytes[8], 2);
    assert_eq!(bytes[16], 3);
    assert_eq!(bytes[24], 4);
    assert!(bytes[1..8].iter().all(|&b| b == 0));
}

#[test]
fn matrix_rejects_ragged_rows() {
    let rows = vec![vec![1u64, 2u64], vec![3u64]];
    assert_eq!(Matrix::new(&rows, 2).unwrap_err(), Error::InvalidInput);
}

#[test]
fn plot_vocabulary_round_trips() {
    let p = Plot::new("PDF", "pdf.svg");
    assert_eq!(p.name, "PDF");
    assert_eq!(p.url, "pdf.svg");
    assert_ne!(Axis::BottomX, Axis::TopX);
    assert_ne!(Style::XErrorBar, Style::YErrorLines);
    assert_ne!(Scale::Linear, Scale::Logarithmic);
    assert_ne!(Error::BaselineLoadFailure, Error::InvalidInput);
}

#[test]
fn run_plan_follows_the_mode() {
    let list = plan_run(Mode::List, true, false);
    assert!(list.emit_id_only && !list.measure && !list.compare);
    let test = plan_run(Mode::Test, true, false);
    assert!(test.run_once && !test.measure);
    let profile = plan_run(Mode::Profile, true, false);
    assert!(profile.profile && !profile.measure);
    let with_base = plan_run(Mode::Full, true, false);
    assert!(with_base.measure && with_base.compare && with_base.persist);
    let without_base = plan_run(Mode::Full, false, false);
    assert!(without_base.measure && !without_base.compare && without_base.persist);
    let loaded = plan_run(Mode::Full, true, true);
    assert!(loaded.measure && loaded.compare && !loaded.persist);
}

#[test]
fn r_squared_reduces_large_slope_fractions() {
    // The fitted fraction 9175040/1310720 reduces to 7/1, so a fit whose
    // raw denominator is far beyond the arithmetic range is still usable.
    let xs: Vec<u64> = vec![512, 1024];
    let ys: Vec<i64> = vec![3584, 7168];
    let s = fit_slope(&xs, &ys).unwrap();
    assert!(s.den > 65_536);
    let r2 = r_squared(&s, &xs, &ys).unwrap();
    assert_eq!((r2.num, r2.den), (R2_SCALE, R2_SCALE));
}

#[test]
fn exact_fit_slope_interval_is_a_point() {
    // Every refit slope equals the true one, so the interval collapses
    // and the standard error is exactly zero.
    let iters: Vec<u64> = vec![1, 2, 3, 4, 5];
    let times: Vec<i64> = vec![10, 20, 30, 40, 50];
    let m = analyze(&iters, &times, &config(2), None).unwrap();
    let slope = &m.absolute_estimates.slope;
    let expect = 10 * criterion::SLOPE_SCALE;
    assert_eq!(slope.confidence_interval.lower_bound.num, expect);
    assert_eq!(slope.confidence_interval.upper_bound.num, expect);
    assert_eq!(slope.standard_error.num, 0);
}

#[test]
fn wide_iteration_counts_are_accepted() {
    // Counts up to MAX_ITERS work as long as each count*time product
    // stays within MAX_XY.
    let iters: Vec<u64> = vec![criterion::MAX_ITERS, criterion::MAX_ITERS / 2];
    let times: Vec<i64> = vec![1 << 20, 1 << 19];
    let s = fit_slope(&iters, &times).unwrap();
    assert!(s.den >= 1);
    let avg = average_times(&iters, &times).unwrap();
    assert_eq!(avg.len(), 2);
}
