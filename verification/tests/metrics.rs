//! Cost-metric behaviour on concrete residual vectors.

use chronopt::cost::{CostMetric, GaussianNll, MetricError, RootMeanSquaredError, SumSquaredError};
use chronopt::fixed::Scalar;

const SCALE_F: f64 = 68719476736.0;

fn fx(v: f64) -> Scalar {
    Scalar::from_raw((v * SCALE_F).round() as i64)
}

fn fl(s: Scalar) -> f64 {
    s.raw as f64 / SCALE_F
}

fn fxv(vs: &[f64]) -> Vec<Scalar> {
    vs.iter().map(|&v| fx(v)).collect()
}

#[test]
fn test_sse_basic() {
    let metric = SumSquaredError::new(None);
    let residuals = fxv(&[1.0, 2.0, 3.0]);
    assert_eq!(fl(metric.evaluate(&residuals)), 14.0);
}

#[test]
fn test_sse_with_weight() {
    let metric = SumSquaredError::new(Some(fx(2.0)));
    let residuals = fxv(&[1.0, 2.0, 3.0]);
    // Unweighted SSE is 14.0, so with weight 2.0 it should be 28.0
    assert_eq!(fl(metric.evaluate(&residuals)), 28.0);
}

#[test]
fn test_sse_with_gradient() {
    let metric = SumSquaredError::new(None);
    let residuals = fxv(&[1.0, 2.0]);
    let sens_matrix = fxv(&[0.5, 0.5]);
    let (cost, grad) = metric
        .evaluate_with_sensitivities(&residuals, &vec![sens_matrix])
        .expect("SumSquaredError should support gradient evaluation");
    assert_eq!(fl(cost), 5.0);
    assert_eq!(grad.len(), 1);
    assert_eq!(fl(grad[0]), 3.0); // 2*1*0.5 + 2*2*0.5
}

#[test]
fn test_rmse_basic() {
    let metric = RootMeanSquaredError::new(None);
    let residuals = fxv(&[1.0, 2.0, 3.0]);
    let expected = (14.0 / 3.0_f64).sqrt();
    assert!((fl(metric.evaluate(&residuals)) - expected).abs() < 1e-10);
}

#[test]
fn test_rmse_with_weight() {
    let metric = RootMeanSquaredError::new(Some(fx(0.5)));
    let residuals = fxv(&[1.0, 2.0, 3.0]);
    let expected = (14.0 / 3.0_f64).sqrt() * 0.5;
    assert!((fl(metric.evaluate(&residuals)) - expected).abs() < 1e-10);
}

#[test]
fn test_gaussian_nll_clamped() {
    let metric = GaussianNll::new_clamped(fx(-1.0));
    assert!(metric.variance.raw > 0);
}

#[test]
fn test_gaussian_nll_with_weight() {
    let residuals = fxv(&[1.0, -1.0]);
    let variance = fx(0.5);
    let base = GaussianNll::new(Some(fx(1.0)), variance)
        .expect("positive variance")
        .evaluate(&residuals);
    let weighted = GaussianNll::new(Some(fx(2.0)), variance)
        .expect("positive variance")
        .evaluate(&residuals);
    assert!((fl(weighted) - 2.0 * fl(base)).abs() < 1e-12);
}

#[test]
fn gaussian_nll_rejects_nonpositive_variance() {
    let err = GaussianNll::new(None, fx(-1.0));
    assert!(matches!(err, Err(MetricError::NonPositiveVariance)));
    let err_zero = GaussianNll::new(None, fx(0.0));
    assert!(matches!(err_zero, Err(MetricError::NonPositiveVariance)));
}

#[test]
fn empty_residuals_cost_zero_and_empty_gradient() {
    let empty: Vec<Scalar> = Vec::new();
    let no_sens: Vec<Vec<Scalar>> = Vec::new();

    let sse = SumSquaredError::new(None);
    assert_eq!(sse.evaluate(&empty).raw, 0);
    let (c, g) = sse.evaluate_with_sensitivities(&empty, &no_sens).unwrap();
    assert_eq!(c.raw, 0);
    assert!(g.is_empty());

    let rmse = RootMeanSquaredError::new(None);
    assert_eq!(rmse.evaluate(&empty).raw, 0);
    let (c, g) = rmse.evaluate_with_sensitivities(&empty, &no_sens).unwrap();
    assert_eq!(c.raw, 0);
    assert!(g.is_empty());

    let nll = GaussianNll::new(None, fx(1.0)).unwrap();
    assert_eq!(nll.evaluate(&empty).raw, 0);
    let (c, g) = nll.evaluate_with_sensitivities(&empty, &no_sens).unwrap();
    assert_eq!(c.raw, 0);
    assert!(g.is_empty());
}

#[test]
fn empty_sensitivity_list_yields_empty_gradient() {
    let residuals = fxv(&[1.0, 2.0]);
    let no_sens: Vec<Vec<Scalar>> = Vec::new();
    let (c, g) = SumSquaredError::new(None)
        .evaluate_with_sensitivities(&residuals, &no_sens)
        .unwrap();
    assert_eq!(fl(c), 5.0);
    assert!(g.is_empty());
}

#[test]
fn metric_names_are_stable() {
    assert_eq!(SumSquaredError::new(None).name(), "sse");
    assert_eq!(RootMeanSquaredError::new(None).name(), "rmse");
    assert_eq!(
        GaussianNll::new(None, fx(1.0)).unwrap().name(),
        "gaussian_nll"
    );
}

#[test]
fn rmse_gradient_on_concrete_values() {
    // r = [3, 4], one parameter with sensitivities [1, 1]:
    // sse = 25, mse = 12.5, rmse = sqrt(12.5);
    // d(sse)/dp = 2*3 + 2*4 = 14; gradient = 14 / (2 * 2 * rmse).
    let metric = RootMeanSquaredError::new(None);
    let residuals = fxv(&[3.0, 4.0]);
    let sens = vec![fxv(&[1.0, 1.0])];
    let (c, g) = metric.evaluate_with_sensitivities(&residuals, &sens).unwrap();
    let rmse = (12.5_f64).sqrt();
    assert!((fl(c) - rmse).abs() < 1e-9);
    assert_eq!(g.len(), 1);
    assert!((fl(g[0]) - 14.0 / (4.0 * rmse)).abs() < 1e-8);
}

#[test]
fn gaussian_nll_gradient_on_concrete_values() {
    // r = [1, 2], variance 2, one parameter with sensitivities [1, 1]:
    // gradient = (1*1 + 2*1) / 2 = 1.5.
    let metric = GaussianNll::new(None, fx(2.0)).unwrap();
    let residuals = fxv(&[1.0, 2.0]);
    let sens = vec![fxv(&[1.0, 1.0])];
    let (c, g) = metric.evaluate_with_sensitivities(&residuals, &sens).unwrap();
    let expected_cost = 0.5 * 2.0 * (2.0 * std::f64::consts::PI * 2.0).ln() + 0.5 * 5.0 / 2.0;
    assert!((fl(c) - expected_cost).abs() < 1e-5);
    assert_eq!(g.len(), 1);
    assert!((fl(g[0]) - 1.5).abs() < 1e-9);
}

#[test]
fn scalar_roundtrip_and_roots() {
    assert_eq!(fl(Scalar::from_int(4).sqrt()), 2.0);
    assert_eq!(Scalar::one().ln().raw, 0);
    assert_eq!(fl(Scalar::zero().exp()), 1.0);
    let e = fl(fx(1.0).exp());
    assert!((e - std::f64::consts::E).abs() < 1e-4);
    let l2 = fl(fx(2.0).ln());
    assert!((l2 - std::f64::consts::LN_2).abs() < 1e-6);
}
