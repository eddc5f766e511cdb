//! Optimiser behaviour on the quadratic `(x - 1.5)^2 + (y + 0.5)^2`
//! and builder/problem plumbing.

use std::cell::RefCell;
use std::rc::Rc;

use chronopt::adam::Adam;
use chronopt::cmaes::CmaEs;
use chronopt::fixed::Scalar;
use chronopt::nelder_mead::NelderMead;
use chronopt::objective::Objective;
use chronopt::optimiser::AnyOptimiser;
use chronopt::problem::{BuildError, Builder};
use chronopt::results::OptimiseError;

const SCALE_F: f64 = 68719476736.0;

fn fx(v: f64) -> Scalar {
    Scalar::from_raw((v * SCALE_F).round() as i64)
}

fn fl(s: Scalar) -> f64 {
    s.raw as f64 / SCALE_F
}

fn fxv(vs: &[f64]) -> Vec<Scalar> {
    vs.iter().map(|&v| fx(v)).collect()
}

struct Quadratic;

impl Objective for Quadratic {
    fn value(&self, x: &Vec<Scalar>) -> Scalar {
        let a = fl(x[0]) - 1.5;
        let b = fl(x[1]) + 0.5;
        fx(a * a + b * b)
    }

    fn gradient(&self, _x: &Vec<Scalar>) -> Option<Vec<Scalar>> {
        None
    }
}

struct QuadraticWithGradient {
    values_seen: Rc<RefCell<Vec<f64>>>,
}

impl Objective for QuadraticWithGradient {
    fn value(&self, x: &Vec<Scalar>) -> Scalar {
        let a = fl(x[0]) - 1.5;
        let b = fl(x[1]) + 0.5;
        let f = a * a + b * b;
        self.values_seen.borrow_mut().push(f);
        fx(f)
    }

    fn gradient(&self, x: &Vec<Scalar>) -> Option<Vec<Scalar>> {
        let a = fl(x[0]) - 1.5;
        let b = fl(x[1]) + 0.5;
        Some(fxv(&[2.0 * a, 2.0 * b]))
    }
}

fn quadratic_problem() -> chronopt::problem::Problem<Quadratic> {
    Builder::new()
        .with_objective(Quadratic)
        .add_parameter(String::from("x"))
        .add_parameter(String::from("y"))
        .build()
        .expect("objective supplied")
}

#[test]
fn nelder_mead_converges_on_quadratic() {
    let problem = quadratic_problem();
    let nm = NelderMead::new();
    let res = nm.run(&problem, fxv(&[5.0, -4.0]));
    assert!(res.success);
    assert!(res.nit <= 1000);
    assert!((fl(res.x[0]) - 1.5).abs() < 0.05);
    assert!((fl(res.x[1]) + 0.5).abs() < 0.05);
    assert!(fl(res.fun) < 1e-3);
}

#[test]
fn nelder_mead_is_deterministic() {
    let problem = quadratic_problem();
    let nm = NelderMead::new();
    let a = nm.run(&problem, fxv(&[5.0, -4.0]));
    let b = nm.run(&problem, fxv(&[5.0, -4.0]));
    assert_eq!(a.x, b.x);
    assert_eq!(a.fun.raw, b.fun.raw);
    assert_eq!(a.nit, b.nit);
    assert_eq!(a.success, b.success);
}

#[test]
fn nelder_mead_reports_cap_without_convergence() {
    let problem = quadratic_problem();
    let nm = NelderMead::new()
        .with_max_iter(3)
        .with_threshold(Scalar::from_raw(0))
        .with_position_tolerance(Scalar::from_raw(0));
    let res = nm.run(&problem, fxv(&[5.0, -4.0]));
    assert!(!res.success);
    assert_eq!(res.nit, 3);
}

#[test]
fn adam_descends_on_quadratic_gradient() {
    let seen = Rc::new(RefCell::new(Vec::new()));
    let problem = Builder::new()
        .with_objective(QuadraticWithGradient { values_seen: seen.clone() })
        .build()
        .expect("objective supplied");
    let adam = Adam::new().with_step_size(fx(0.05)).with_max_iter(3000);
    let res = adam.run(&problem, fxv(&[5.0, -4.0])).expect("gradient available");
    let trace = seen.borrow();
    assert!(trace.len() > 10);
    // the objective decreases across the early iterations
    for w in trace[..50.min(trace.len())].windows(2) {
        assert!(w[1] <= w[0] + 1e-12);
    }
    assert!(fl(res.fun) < trace[0]);
    assert!((fl(res.x[0]) - 1.5).abs() < 0.2);
    assert!((fl(res.x[1]) + 0.5).abs() < 0.2);
}

#[test]
fn adam_requires_a_gradient() {
    let problem = quadratic_problem();
    let adam = Adam::new();
    let res = adam.run(&problem, fxv(&[5.0, -4.0]));
    assert!(matches!(res, Err(OptimiseError::GradientUnavailable)));
}

#[test]
fn cmaes_is_deterministic_and_improves() {
    let problem = quadratic_problem();
    let cma = CmaEs::new().with_seed(42).with_max_iter(80);
    let start = fxv(&[5.0, -4.0]);
    let f0 = fl(problem.evaluate(&start));
    let a = cma.run(&problem, start.clone());
    let b = cma.run(&problem, start);
    assert_eq!(a.x, b.x);
    assert_eq!(a.fun.raw, b.fun.raw);
    assert_eq!(a.nit, b.nit);
    assert_eq!(a.success, b.success);
    assert!(fl(a.fun) < f0);
}

#[test]
fn cmaes_seed_changes_trajectory_not_safety() {
    let problem = quadratic_problem();
    let start = fxv(&[5.0, -4.0]);
    let a = CmaEs::new().with_seed(1).run(&problem, start.clone());
    let b = CmaEs::new().with_seed(2).run(&problem, start);
    assert_eq!(a.x.len(), 2);
    assert_eq!(b.x.len(), 2);
}

#[test]
fn build_without_objective_fails() {
    let res = Builder::<Quadratic>::new().build();
    match res {
        Ok(_) => panic!("build must fail without an objective"),
        Err(e) => {
            assert_eq!(e, BuildError::MissingObjective);
            assert_eq!(e.message(), "at least one objective must be provided");
        }
    }
}

#[test]
fn config_last_write_wins() {
    let problem = Builder::new()
        .with_objective(Quadratic)
        .with_config(String::from("tol"), fx(1.0))
        .with_config(String::from("other"), fx(7.0))
        .with_config(String::from("tol"), fx(2.0))
        .build()
        .unwrap();
    let got = problem.get_config(&String::from("tol")).unwrap();
    assert_eq!(fl(got), 2.0);
    assert_eq!(fl(problem.get_config(&String::from("other")).unwrap()), 7.0);
    assert!(problem.get_config(&String::from("missing")).is_none());
    assert_eq!(problem.config().len(), 3);
}

#[test]
fn dimension_counts_parameters() {
    let problem = quadratic_problem();
    assert_eq!(problem.dimension(), 2);
    let bare = Builder::new().with_objective(Quadratic).build().unwrap();
    assert_eq!(bare.dimension(), 0);
}

#[test]
fn optimize_resolution_order() {
    // explicit optimiser wins
    let problem = quadratic_problem();
    let explicit = AnyOptimiser::NelderMead(NelderMead::new().with_max_iter(5));
    let res = problem
        .optimize(Some(fxv(&[5.0, -4.0])), Some(&explicit))
        .unwrap();
    assert!(res.nit <= 5);

    // a configured default is used when no argument is given
    let with_default = Builder::new()
        .with_objective(Quadratic)
        .add_parameter(String::from("x"))
        .add_parameter(String::from("y"))
        .set_optimiser(NelderMead::new().with_max_iter(7))
        .build()
        .unwrap();
    let res = with_default.optimize(Some(fxv(&[5.0, -4.0])), None).unwrap();
    assert!(res.nit <= 7);

    // otherwise Nelder-Mead defaults run from the zero vector
    let fallback = quadratic_problem();
    let res = fallback.optimize(None, None).unwrap();
    assert_eq!(res.x.len(), 2);
    assert!(res.success);
}

#[test]
fn builder_configuration_copies_are_independent() {
    let base = NelderMead::new();
    let tight = base.with_threshold(Scalar::from_raw(1));
    assert_eq!(base.threshold.raw, 68719);
    assert_eq!(tight.threshold.raw, 1);
    assert_eq!(tight.max_iter, base.max_iter);
}
