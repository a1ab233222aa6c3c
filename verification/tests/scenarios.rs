use regrs::error::{ErrorKind, FitError};
use regrs::matrix::Matrix;
use regrs::model::OLS;
use regrs::numerics::Numerics;

/// Least squares by the normal equations, for one or two parameters.
fn solve(x: &Matrix<f64>, y: &Vec<f64>) -> Option<Vec<f64>> {
    let n = x.nrows();
    if x.ncols() == 1 {
        let mut sxx = 0.0;
        let mut sxy = 0.0;
        for i in 0..n {
            sxx += x.get(i, 0) * x.get(i, 0);
            sxy += x.get(i, 0) * y[i];
        }
        if sxx == 0.0 {
            return None;
        }
        Some(vec![sxy / sxx])
    } else {
        let (mut a, mut b, mut d, mut u, mut v) = (0.0, 0.0, 0.0, 0.0, 0.0);
        for i in 0..n {
            let (p, q) = (x.get(i, 0), x.get(i, 1));
            a += p * p;
            b += p * q;
            d += q * q;
            u += p * y[i];
            v += q * y[i];
        }
        let det = a * d - b * b;
        if det == 0.0 {
            return None;
        }
        Some(vec![(d * u - b * v) / det, (a * v - b * u) / det])
    }
}

fn squared_error(beta: &Vec<f64>, row: &Vec<f64>, y: f64) -> f64 {
    let prediction: f64 = beta.iter().zip(row).map(|(b, x)| b * x).sum();
    (y - prediction) * (y - prediction)
}

fn tss(y: &Vec<f64>) -> f64 {
    let mean = y.iter().sum::<f64>() / y.len() as f64;
    y.iter().map(|v| (v - mean) * (v - mean)).sum()
}

fn var(y: &Vec<f64>) -> f64 {
    tss(y) / y.len() as f64
}

fn r2(tss: f64, rss: f64) -> f64 {
    1.0 - rss / tss
}

fn r2_adjusted(tss: f64, rss: f64, df_residual: usize, df_total: usize) -> f64 {
    1.0 - (rss / df_residual as f64) / (tss / df_total as f64)
}

fn r2_predicted(press: f64, var: f64, n: usize) -> f64 {
    1.0 - (press / var) / n as f64
}

struct Fit {
    beta: Vec<f64>,
    model: OLS<f64>,
}

fn fit(x: Matrix<f64>, y: Vec<f64>, add_const: bool) -> Result<Fit, FitError> {
    let numerics = Numerics {
        zero: 0.0,
        one: 1.0,
        solver: solve,
        squared_error,
        plus: |a: f64, b: f64| a + b,
        tss,
        var,
        is_zero: |v: f64| v == 0.0,
        r2,
        r2_adjusted,
        r2_predicted,
    };
    let design = if add_const { x.with_column(1.0) } else { Matrix::from_vec(x.nrows(), x.ncols(), x.as_slice().to_vec()).unwrap() };
    let model = OLS::new(x, y.clone(), add_const, &numerics)?;
    let beta = solve(&design, &y).unwrap();
    Ok(Fit { beta, model })
}

fn column(values: &[f64]) -> Matrix<f64> {
    Matrix::from_vec(values.len(), 1, values.to_vec()).unwrap()
}

#[test]
fn exact_line_through_origin() {
    let f = fit(column(&[1.0, 2.0, 3.0, 4.0]), vec![2.0, 4.0, 6.0, 8.0], false).unwrap();
    assert_eq!(f.beta, vec![2.0]);
    assert_eq!(f.model.size_samples(), 4);
    assert_eq!(f.model.size_params(), 1);
    assert_eq!(f.model.tss(), 20.0);
    assert_eq!(f.model.var(), 5.0);
    assert_eq!(f.model.rss(), 0.0);
    assert_eq!(f.model.press(), 0.0);
    assert_eq!(f.model.r2(), 1.0);
    assert_eq!(f.model.r2_adjusted(), 1.0);
    assert_eq!(f.model.r2_predicted(), 1.0);
}

#[test]
fn perfect_fit_has_r2_of_one() {
    // y = 3x - 1, fitted with an intercept
    let x = [0.0, 1.0, 2.0, 3.0, 4.0];
    let y: Vec<f64> = x.iter().map(|v| 3.0 * v - 1.0).collect();
    let f = fit(column(&x), y, true).unwrap();
    assert_eq!(f.beta, vec![3.0, -1.0]);
    assert_eq!(f.model.rss(), 0.0);
    assert_eq!(f.model.r2(), 1.0);
}

#[test]
fn poor_fit_has_negative_r2() {
    // a line through the origin cannot follow a falling response
    let f = fit(column(&[1.0, 2.0, 3.0]), vec![3.0, 2.0, 1.0], false).unwrap();
    assert!(f.model.rss() > f.model.tss());
    assert!(f.model.r2() < 0.0);
}

#[test]
fn two_observations_one_parameter() {
    let f = fit(column(&[1.0, 2.0]), vec![1.0, 3.0], false).unwrap();
    assert_eq!(f.model.size_samples(), 2);
    assert_eq!(f.model.size_params(), 1);
    assert_eq!(f.model.press(), 1.25);
    assert!(f.model.press().is_finite());
    // var = 1, n = 2
    assert_eq!(f.model.r2_predicted(), 1.0 - 1.25 / 2.0);
}

#[test]
fn as_many_observations_as_parameters_is_degenerate() {
    let x = Matrix::from_vec(2, 2, vec![1.0, 2.0, 3.0, 5.0]).unwrap();
    let e = fit(x, vec![1.0, 2.0], false).err().unwrap();
    assert_eq!(e, FitError::NoResidualFreedom { rows: 2 });
    assert_eq!(e.kind(), ErrorKind::DegenerateInput);
    let e = fit(column(&[1.0, 2.0]), vec![1.0, 2.0], true).err().unwrap();
    assert_eq!(e.kind(), ErrorKind::DegenerateInput);
}

#[test]
fn mismatched_lengths_are_rejected() {
    let e = fit(column(&[1.0, 2.0, 3.0]), vec![1.0, 2.0], false).err().unwrap();
    assert_eq!(e, FitError::ShapeMismatch { rows: 3, responses: 2 });
    assert_eq!(e.kind(), ErrorKind::ShapeMismatch);
}

#[test]
fn constant_response_is_degenerate() {
    let e = fit(column(&[1.0, 2.0, 3.0]), vec![4.0, 4.0, 4.0], false).err().unwrap();
    assert_eq!(e, FitError::ZeroVariance);
    assert_eq!(e.kind(), ErrorKind::DegenerateInput);
}

#[test]
fn failed_full_solve_is_numerical_failure() {
    let e = fit(column(&[0.0, 0.0, 0.0]), vec![1.0, 2.0, 3.0], false).err().unwrap();
    assert_eq!(e, FitError::SolveFailed);
    assert_eq!(e.kind(), ErrorKind::NumericalFailure);
}

#[test]
fn failed_fold_is_numerical_failure() {
    let e = fit(column(&[0.0, 5.0, 0.0]), vec![1.0, 2.0, 3.0], false).err().unwrap();
    assert_eq!(e, FitError::FoldFailed { fold: 1 });
    assert_eq!(e.kind(), ErrorKind::NumericalFailure);
}

#[test]
fn intercept_keeps_rss_below_tss() {
    let x = [1.0, 2.0, 3.0, 4.0, 5.0, 6.0];
    let y = vec![2.0, 1.0, 4.0, 3.0, 7.0, 5.0];
    let f = fit(column(&x), y, true).unwrap();
    assert!(f.model.rss() <= f.model.tss());
    assert!(f.model.r2() >= 0.0);
    assert!(f.model.r2() <= 1.0);
}

#[test]
fn constant_column_alone_fits_the_mean() {
    let x = Matrix::<f64>::from_vec(4, 0, Vec::new()).unwrap();
    let f = fit(x, vec![1.0, 2.0, 3.0, 4.0], true).unwrap();
    assert_eq!(f.model.size_params(), 1);
    assert_eq!(f.beta, vec![2.5]);
    assert_eq!(f.model.rss(), f.model.tss());
    assert_eq!(f.model.rss(), 5.0);
    assert_eq!(f.model.r2(), 0.0);
}

#[test]
fn press_is_never_negative() {
    let x = [1.0, 2.0, 3.0, 4.0, 5.0];
    let y = vec![1.0, -2.0, 4.0, -3.0, 6.0];
    let f = fit(column(&x), y, false).unwrap();
    assert!(f.model.press() >= 0.0);
    assert!(f.model.press() > 0.0);
}

#[test]
fn predicted_r2_divides_by_variance_and_sample_size() {
    let f = fit(column(&[1.0, 2.0, 3.0, 4.0]), vec![1.5, 1.5, 3.5, 3.5], false).unwrap();
    let press = f.model.press();
    let var = f.model.var();
    assert_eq!(var, 1.0);
    assert_eq!(f.model.tss(), 4.0);
    assert_eq!(f.model.r2_predicted(), 1.0 - (press / var) / 4.0);
}

#[test]
fn adjusted_r2_exact_value() {
    let f = fit(column(&[1.0, 2.0, 3.0]), vec![1.0, 2.0, 4.0], false).unwrap();
    // beta = (1 + 4 + 12) / (1 + 4 + 9)
    let beta = 17.0 / 14.0;
    let rss = (1.0 - beta) * (1.0 - beta)
        + (2.0 - beta * 2.0) * (2.0 - beta * 2.0)
        + (4.0 - beta * 3.0) * (4.0 - beta * 3.0);
    let mean = 7.0 / 3.0;
    let tss = (1.0 - mean) * (1.0 - mean) + (2.0 - mean) * (2.0 - mean) + (4.0 - mean) * (4.0 - mean);
    assert_eq!(f.model.rss(), rss);
    assert_eq!(f.model.tss(), tss);
    assert_eq!(f.model.r2(), 1.0 - rss / tss);
    assert_eq!(f.model.r2_adjusted(), 1.0 - (rss / 2.0) / (tss / 2.0));
}

#[test]
fn two_fits_of_the_same_input_are_identical() {
    let x = [0.3, 1.7, 2.9, 4.1, 5.3, 6.1, 7.7];
    let y = vec![1.1, 0.4, 2.2, 3.9, 3.1, 5.8, 6.0];
    let a = fit(column(&x), y.clone(), true).unwrap();
    let b = fit(column(&x), y, true).unwrap();
    assert_eq!(a.model.tss().to_bits(), b.model.tss().to_bits());
    assert_eq!(a.model.rss().to_bits(), b.model.rss().to_bits());
    assert_eq!(a.model.press().to_bits(), b.model.press().to_bits());
    assert_eq!(a.model.r2().to_bits(), b.model.r2().to_bits());
    assert_eq!(a.model.r2_adjusted().to_bits(), b.model.r2_adjusted().to_bits());
    assert_eq!(a.model.r2_predicted().to_bits(), b.model.r2_predicted().to_bits());
    assert_eq!(a.model.var().to_bits(), b.model.var().to_bits());
}
