use rayon::ThreadPoolBuilder;
use regrs::design::Design;
use regrs::error::FitError;
use regrs::loocv::{gather_folds, without_index, Fold};
use regrs::sums::sum_in_order;
use regrs::matrix::Matrix;
use regrs::solve::{accept_solution, score_fold};

fn design_of(x: &[f64], y: &[f64]) -> Design<f64> {
    let exog = Matrix::from_vec(x.len(), 1, x.to_vec()).unwrap();
    Design::new(exog, y.to_vec(), None).unwrap()
}

/// The slope of the least-squares line through the origin (one predictor), or
/// nothing if every predictor value is zero.
fn solve_through_origin(x: &Matrix<f64>, y: &Vec<f64>) -> Option<Vec<f64>> {
    let mut sxy = 0.0;
    let mut sxx = 0.0;
    for i in 0..x.nrows() {
        sxy += x.get(i, 0) * y[i];
        sxx += x.get(i, 0) * x.get(i, 0);
    }
    if sxx == 0.0 {
        return None;
    }
    Some(vec![sxy / sxx])
}

fn squared_error(beta: &Vec<f64>, row: &Vec<f64>, y: f64) -> f64 {
    let prediction: f64 = beta.iter().zip(row).map(|(b, x)| b * x).sum();
    (y - prediction) * (y - prediction)
}

fn plus(a: f64, b: f64) -> f64 {
    a + b
}

#[test]
fn without_index_drops_one_item() {
    let v = vec![10, 20, 30, 40];
    assert_eq!(without_index(&v, 0), vec![20, 30, 40]);
    assert_eq!(without_index(&v, 2), vec![10, 20, 40]);
    assert_eq!(without_index(&v, 3), vec![10, 20, 30]);
    assert_eq!(without_index(&vec![7], 0), Vec::<i32>::new());
}

#[test]
fn fold_holds_out_one_observation() {
    let x = Matrix::from_vec(3, 2, vec![1.0, 2.0, 3.0, 4.0, 5.0, 6.0]).unwrap();
    let design = Design::new(x, vec![10.0, 20.0, 30.0], None);
    // three rows, two parameters
    let design = design.unwrap();
    let fold = design.fold(1);
    assert_eq!((fold.train_x.nrows(), fold.train_x.ncols()), (2, 2));
    assert_eq!(fold.train_x.as_slice(), &[1.0, 2.0, 5.0, 6.0]);
    assert_eq!(fold.train_y, vec![10.0, 30.0]);
    assert_eq!(fold.test_x, vec![3.0, 4.0]);
    assert_eq!(fold.test_y, 20.0);
    // the design is unchanged
    assert_eq!(design.exog().as_slice(), &[1.0, 2.0, 3.0, 4.0, 5.0, 6.0]);
    assert_eq!(design.endog(), &vec![10.0, 20.0, 30.0]);
}

#[test]
fn fold_first_and_last() {
    let design = design_of(&[1.0, 2.0, 3.0], &[4.0, 5.0, 6.0]);
    let first = design.fold(0);
    assert_eq!(first.train_x.as_slice(), &[2.0, 3.0]);
    assert_eq!(first.train_y, vec![5.0, 6.0]);
    assert_eq!((first.test_x, first.test_y), (vec![1.0], 4.0));
    let last = design.fold(2);
    assert_eq!(last.train_x.as_slice(), &[1.0, 2.0]);
    assert_eq!(last.train_y, vec![4.0, 5.0]);
    assert_eq!((last.test_x, last.test_y), (vec![3.0], 6.0));
}

#[test]
fn fold_includes_constant_column() {
    let x = Matrix::from_vec(3, 1, vec![1.0, 2.0, 3.0]).unwrap();
    let design = Design::new(x, vec![4.0, 5.0, 6.0], Some(1.0)).unwrap();
    let fold = design.fold(0);
    assert_eq!(fold.train_x.as_slice(), &[2.0, 1.0, 3.0, 1.0]);
    assert_eq!(fold.test_x, vec![1.0, 1.0]);
}

#[test]
fn fold_outcomes_come_in_fold_order() {
    let n = 2000;
    let x: Vec<f64> = (0..n).map(|i| i as f64).collect();
    let y: Vec<f64> = (0..n).map(|i| (3 * i + 1) as f64).collect();
    let design = design_of(&x, &y);
    let held_out = design.fold_outcomes(&|fold: Fold<f64>| (fold.test_x[0], fold.test_y));
    assert_eq!(held_out.len(), n);
    for (i, (xi, yi)) in held_out.iter().enumerate() {
        assert_eq!(*xi, x[i]);
        assert_eq!(*yi, y[i]);
    }
    let sizes = design.fold_outcomes(&|fold: Fold<f64>| (fold.train_x.nrows(), fold.train_y.len()));
    assert_eq!(sizes, vec![(n - 1, n - 1); n]);
}

#[test]
fn fold_outcomes_see_training_set_without_held_out() {
    let design = design_of(&[1.0, 2.0, 3.0, 4.0], &[10.0, 20.0, 30.0, 40.0]);
    let sums = design.fold_outcomes(&|fold: Fold<f64>| {
        (fold.train_x.as_slice().iter().sum::<f64>(), fold.train_y.iter().sum::<f64>())
    });
    assert_eq!(sums, vec![(9.0, 90.0), (8.0, 80.0), (7.0, 70.0), (6.0, 60.0)]);
}

#[test]
fn gather_folds_keeps_order() {
    let outcomes = vec![Some(1.5), Some(0.0), Some(2.5)];
    assert_eq!(gather_folds(&outcomes), Ok(vec![1.5, 0.0, 2.5]));
    assert_eq!(gather_folds(&Vec::<Option<f64>>::new()), Ok(Vec::new()));
}

#[test]
fn gather_folds_reports_first_failure() {
    let outcomes = vec![Some(1.5), None, Some(2.5), None];
    assert_eq!(gather_folds(&outcomes), Err(FitError::FoldFailed { fold: 1 }));
    assert_eq!(gather_folds(&vec![None, Some(1.0)]), Err(FitError::FoldFailed { fold: 0 }));
    assert_eq!(gather_folds(&vec![Some(1.0), Some(2.0), None]), Err(FitError::FoldFailed { fold: 2 }));
}

#[test]
fn sum_in_order_adds_first_to_last() {
    let items = vec![1.0, 2.0, 3.0];
    assert_eq!(sum_in_order(&items, 0.0, &|a: f64, b: f64| a + b), 6.0);
    assert_eq!(sum_in_order(&items, 10.0, &|a: f64, b: f64| a + b), 16.0);
    assert_eq!(sum_in_order(&Vec::<f64>::new(), 0.5, &|a: f64, b: f64| a + b), 0.5);
    // the order shows with an operation that does not commute
    let digits = vec![1u64, 2, 3];
    assert_eq!(sum_in_order(&digits, 0, &|a: u64, b: u64| a * 10 + b), 123);
}

#[test]
fn sum_in_order_rounds_as_a_left_fold() {
    let items = vec![1.0e16, 1.0, -1.0e16, 1.0];
    assert_eq!(sum_in_order(&items, 0.0, &|a: f64, b: f64| a + b), ((1.0e16 + 1.0) + -1.0e16) + 1.0);
    assert_eq!(sum_in_order(&items, 0.0, &|a: f64, b: f64| a + b), 1.0);
}

#[test]
fn leave_one_out_exact_line() {
    // y = 2x: every fold recovers the slope, so every prediction is exact
    let design = design_of(&[1.0, 2.0, 3.0, 4.0], &[2.0, 4.0, 6.0, 8.0]);
    let errors = design.leave_one_out(&solve_through_origin, &squared_error).unwrap();
    assert_eq!(errors, vec![0.0, 0.0, 0.0, 0.0]);
    let (press, errors) = design.press(&solve_through_origin, &squared_error, 0.0, &plus).unwrap();
    assert_eq!(press, 0.0);
    assert_eq!(errors.len(), 4);
}

#[test]
fn leave_one_out_two_observations() {
    // fold 0 trains on (2, 3): slope 1.5, prediction 1.5 for x = 1
    // fold 1 trains on (1, 1): slope 1, prediction 2 for x = 2
    let design = design_of(&[1.0, 2.0], &[1.0, 3.0]);
    let (press, errors) = design.press(&solve_through_origin, &squared_error, 0.0, &plus).unwrap();
    assert_eq!(errors, vec![0.25, 1.0]);
    assert_eq!(press, 1.25);
    assert!(press.is_finite());
}

#[test]
fn leave_one_out_known_errors() {
    // slopes of the folds: 11/13, 10/10, 3/5
    let design = design_of(&[1.0, 2.0, 3.0], &[1.0, 1.0, 3.0]);
    let errors = design.leave_one_out(&solve_through_origin, &squared_error).unwrap();
    let expected = vec![
        (1.0 - 11.0 / 13.0) * (1.0 - 11.0 / 13.0),
        1.0,
        (3.0 - 3.0 / 5.0 * 3.0) * (3.0 - 3.0 / 5.0 * 3.0),
    ];
    assert_eq!(errors, expected);
}

#[test]
fn leave_one_out_fails_as_a_whole() {
    // without observation 1 the only predictor value left is zero
    let design = design_of(&[0.0, 5.0, 0.0], &[1.0, 2.0, 3.0]);
    // folds 0 and 2 still see x = 5, fold 1 does not
    let r = design.leave_one_out(&solve_through_origin, &squared_error);
    assert_eq!(r, Err(FitError::FoldFailed { fold: 1 }));
    let r = design.press(&solve_through_origin, &squared_error, 0.0, &plus);
    assert_eq!(r, Err(FitError::FoldFailed { fold: 1 }));
}

#[test]
fn leave_one_out_reports_first_failed_fold() {
    let design = design_of(&[1.0, 2.0, 3.0, 4.0], &[1.0, 2.0, 3.0, 4.0]);
    // fails on every training set that still holds the first observation
    let solver = |x: &Matrix<f64>, y: &Vec<f64>| {
        if x.get(0, 0) == 1.0 {
            None
        } else {
            solve_through_origin(x, y)
        }
    };
    let r = design.leave_one_out(&solver, &squared_error);
    assert_eq!(r, Err(FitError::FoldFailed { fold: 1 }));
}

#[test]
fn leave_one_out_rejects_solution_of_wrong_length() {
    let design = design_of(&[1.0, 2.0, 3.0], &[1.0, 2.0, 3.0]);
    let two = |_: &Matrix<f64>, _: &Vec<f64>| Some(vec![1.0, 2.0]);
    assert_eq!(design.leave_one_out(&two, &squared_error), Err(FitError::FoldFailed { fold: 0 }));
    let none = |_: &Matrix<f64>, _: &Vec<f64>| Some(Vec::new());
    assert_eq!(design.leave_one_out(&none, &squared_error), Err(FitError::FoldFailed { fold: 0 }));
}

#[test]
fn accept_solution_wants_one_coefficient_per_parameter() {
    assert_eq!(accept_solution(Some(vec![1.5, 2.5]), 2), Some(vec![1.5, 2.5]));
    assert_eq!(accept_solution(Some(vec![1.5, 2.5]), 3), None);
    assert_eq!(accept_solution(Some(vec![1.5, 2.5]), 1), None);
    assert_eq!(accept_solution(None::<Vec<f64>>, 2), None);
    assert_eq!(accept_solution(Some(Vec::<f64>::new()), 0), Some(Vec::new()));
}

#[test]
fn score_fold_solves_then_predicts() {
    let design = design_of(&[1.0, 2.0, 3.0], &[1.0, 1.0, 3.0]);
    // fold 2 trains on (1, 1), (2, 1): slope 3/5, prediction 1.8 for x = 3
    let outcome = score_fold(design.fold(2), 1, &solve_through_origin, &squared_error);
    assert_eq!(outcome, Some((3.0 - 3.0 / 5.0 * 3.0) * (3.0 - 3.0 / 5.0 * 3.0)));
    // the error function sees the solution, the held-out row and response
    let seen = score_fold(
        design.fold(0),
        1,
        &|_: &Matrix<f64>, _: &Vec<f64>| Some(vec![100.0]),
        &|beta: &Vec<f64>, row: &Vec<f64>, y: f64| beta[0] + 10.0 * row[0] + y,
    );
    assert_eq!(seen, Some(111.0));
}

#[test]
fn score_fold_without_solution() {
    let design = design_of(&[0.0, 5.0, 0.0], &[1.0, 2.0, 3.0]);
    assert_eq!(score_fold(design.fold(1), 1, &solve_through_origin, &squared_error), None);
    assert!(score_fold(design.fold(0), 1, &solve_through_origin, &squared_error).is_some());
    // a solution for another parameter count is none
    assert_eq!(score_fold(design.fold(0), 2, &solve_through_origin, &squared_error), None);
}

#[test]
fn solve_hands_the_full_sample_to_the_solver() {
    let design = design_of(&[1.0, 2.0, 3.0, 4.0], &[2.0, 4.0, 6.0, 8.0]);
    assert_eq!(design.solve(&solve_through_origin), Ok(vec![2.0]));
    let seen = design.solve(&|x: &Matrix<f64>, y: &Vec<f64>| {
        Some(vec![x.as_slice().iter().sum::<f64>() + 100.0 * y.iter().sum::<f64>()])
    });
    assert_eq!(seen, Ok(vec![2010.0]));
}

#[test]
fn solve_failure_is_reported() {
    let design = design_of(&[0.0, 0.0, 0.0], &[1.0, 2.0, 3.0]);
    assert_eq!(design.solve(&solve_through_origin), Err(FitError::SolveFailed));
    let design = design_of(&[1.0, 2.0, 3.0], &[1.0, 2.0, 3.0]);
    let two = |_: &Matrix<f64>, _: &Vec<f64>| Some(vec![1.0, 2.0]);
    assert_eq!(design.solve(&two), Err(FitError::SolveFailed));
}

#[test]
fn rss_adds_squared_residuals_in_order() {
    let design = design_of(&[1.0, 2.0, 3.0], &[1.0, 2.0, 4.0]);
    let beta = vec![17.0 / 14.0];
    let b = 17.0 / 14.0;
    let expected = ((0.0 + (1.0 - b) * (1.0 - b)) + (2.0 - b * 2.0) * (2.0 - b * 2.0))
        + (4.0 - b * 3.0) * (4.0 - b * 3.0);
    assert_eq!(design.rss(&beta, &squared_error, 0.0, &plus), expected);
    // an exact fit leaves nothing
    let exact = design_of(&[1.0, 2.0, 3.0], &[2.0, 4.0, 6.0]);
    assert_eq!(exact.rss(&vec![2.0], &squared_error, 0.0, &plus), 0.0);
    // order and operands, shown with functions that keep them apart
    let digits = design.rss(
        &vec![0.0],
        &|_: &Vec<f64>, row: &Vec<f64>, y: f64| 10.0 * row[0] + y,
        0.0,
        &|a: f64, b: f64| 100.0 * a + b,
    );
    assert_eq!(digits, 112234.0);
}

#[test]
fn press_is_same_for_one_and_many_workers() {
    let n = 300;
    let x: Vec<f64> = (1..=n).map(|i| i as f64 / 7.0).collect();
    let y: Vec<f64> = (1..=n).map(|i| (i as f64).sqrt() + ((i * 37) % 11) as f64 / 3.0).collect();
    let design = design_of(&x, &y);
    let run = |workers: usize| {
        let pool = ThreadPoolBuilder::new().num_threads(workers).build().unwrap();
        pool.install(|| design.press(&solve_through_origin, &squared_error, 0.0, &plus).unwrap())
    };
    let (press_one, errors_one) = run(1);
    let (press_many, errors_many) = run(8);
    assert_eq!(errors_one, errors_many);
    assert_eq!(press_one.to_bits(), press_many.to_bits());
    assert!(press_one > 0.0);
}

#[test]
fn press_is_same_for_two_runs() {
    let x: Vec<f64> = (1..=50).map(|i| i as f64 * 0.1).collect();
    let y: Vec<f64> = (1..=50).map(|i| 1.0 / i as f64).collect();
    let first = design_of(&x, &y).press(&solve_through_origin, &squared_error, 0.0, &plus).unwrap();
    let second = design_of(&x, &y).press(&solve_through_origin, &squared_error, 0.0, &plus).unwrap();
    assert_eq!(first.0.to_bits(), second.0.to_bits());
    assert_eq!(first.1, second.1);
    assert!(first.0 >= 0.0);
}
