//! The least-squares solver as the fit sees it, and the sums that are taken
//! over its solutions.
//!
//! The solver and the squared prediction error are the caller's, handed in as
//! functions. Here they are applied: to the full sample, and to each fold.

use vstd::prelude::*;
use crate::design::{Design, Sample};
use crate::error::FitError;
use crate::loocv::{cross_validated, gathered, is_run, judge_is_function, scored, Fold};
use crate::matrix::Matrix;
use crate::sums::{lemma_sum_keeps, sum_in_order, summed_in_order};

verus! {

/// A solver outcome that can be used for `params` parameters: a solution with
/// one coefficient per parameter.
pub open spec fn accepted<T>(outcome: Option<Vec<T>>, params: nat) -> bool {
    outcome matches Some(beta) && beta@.len() == params
}

/// Takes what the solver returned for a system of `params` parameters: the
/// solution if there is one with a coefficient per parameter, else nothing.
pub fn accept_solution<T>(outcome: Option<Vec<T>>, params: usize) -> (r: Option<Vec<T>>)
    ensures
        accepted(outcome, params as nat) ==> r == outcome,
        !accepted(outcome, params as nat) ==> r is None,
{
    match outcome {
        Some(beta) => {
            if beta.len() == params {
                Some(beta)
            } else {
                None
            }
        },
        None => None,
    }
}

/// `solver` and `squared_error` may be applied to `fold`: the solver to its
/// training data, and the error function to its held-out observation with any
/// solution of `params` coefficients.
pub open spec fn can_score<T, S, E>(
    solver: &S,
    squared_error: &E,
    fold: Fold<T>,
    params: nat,
) -> bool where S: Fn(&Matrix<T>, &Vec<T>) -> Option<Vec<T>>, E: Fn(&Vec<T>, &Vec<T>, T) -> T {
    &&& call_requires(*solver, (&fold.train_x, &fold.train_y))
    &&& forall|beta: Vec<T>|
        beta@.len() == params ==> #[trigger] call_requires(
            *squared_error,
            (&beta, &fold.test_x, fold.test_y),
        )
}

/// `outcome` is the score of `fold`: the squared error of predicting its
/// held-out response with the solution that `solver` returned for its training
/// data, or nothing if the solver returned no usable solution.
pub open spec fn fold_scored<T, S, E>(
    solver: S,
    squared_error: E,
    fold: Fold<T>,
    params: nat,
    outcome: Option<T>,
) -> bool where S: Fn(&Matrix<T>, &Vec<T>) -> Option<Vec<T>>, E: Fn(&Vec<T>, &Vec<T>, T) -> T {
    exists|solution: Option<Vec<T>>| #[trigger]
        call_ensures(solver, (&fold.train_x, &fold.train_y), solution) && if accepted(
            solution,
            params,
        ) {
            outcome matches Some(error) && call_ensures(
                squared_error,
                (&solution->0, &fold.test_x, fold.test_y),
                error,
            )
        } else {
            outcome is None
        }
}

/// What the solver and the error function say of a fold and an outcome: that
/// the outcome is the score of the fold.
pub open spec fn by_solver<T, S, E>(solver: S, squared_error: E, params: nat) -> spec_fn(
    Fold<T>,
    Option<T>,
) -> bool where S: Fn(&Matrix<T>, &Vec<T>) -> Option<Vec<T>>, E: Fn(&Vec<T>, &Vec<T>, T) -> T {
    |fold: Fold<T>, outcome: Option<T>| fold_scored(solver, squared_error, fold, params, outcome)
}

/// `x` and `y` hold the whole of `sample`.
pub open spec fn is_sample<T>(sample: Sample<T>, x: Matrix<T>, y: Vec<T>) -> bool {
    &&& x.wf()
    &&& x.width() == sample.params
    &&& x@ == sample.rows
    &&& y@ == sample.responses
}

/// `result` is what the full-sample solve amounts to: the solution that
/// `solver` returned for the sample if it can be used, else the failure of
/// the solve.
pub open spec fn solved<T, S: Fn(&Matrix<T>, &Vec<T>) -> Option<Vec<T>>>(
    sample: Sample<T>,
    solver: S,
    result: Result<Vec<T>, FitError>,
) -> bool {
    exists|x: Matrix<T>, y: Vec<T>, outcome: Option<Vec<T>>|
        is_sample(sample, x, y) && #[trigger] call_ensures(solver, (&x, &y), outcome)
            && if accepted(outcome, sample.params) {
            result == Ok::<Vec<T>, FitError>(outcome->0)
        } else {
            result == Err::<Vec<T>, FitError>(FitError::SolveFailed)
        }
}

/// `square` is the squared residual of observation `i` under `beta`.
pub open spec fn squared_residual<T, E: Fn(&Vec<T>, &Vec<T>, T) -> T>(
    sample: Sample<T>,
    squared_error: E,
    beta: Vec<T>,
    i: int,
    square: T,
) -> bool {
    exists|row: Vec<T>|
        row@ == sample.rows[i] && #[trigger] call_ensures(
            squared_error,
            (&beta, &row, sample.responses[i]),
            square,
        )
}

/// `squares` holds the squared residuals of all observations under `beta`,
/// first to last.
pub open spec fn squared_residuals<T, E: Fn(&Vec<T>, &Vec<T>, T) -> T>(
    sample: Sample<T>,
    squared_error: E,
    beta: Vec<T>,
    squares: Seq<T>,
) -> bool {
    &&& squares.len() == sample.samples()
    &&& forall|i: int|
        0 <= i < sample.samples() ==> squared_residual(
            sample,
            squared_error,
            beta,
            i,
            #[trigger] squares[i],
        )
}

/// The solver is a function of the data: on equal systems it returns
/// solutions with equal coefficients, or fails on both.
pub open spec fn solver_is_function<T, S: Fn(&Matrix<T>, &Vec<T>) -> Option<Vec<T>>>(
    solver: S,
) -> bool {
    forall|x1: Matrix<T>, y1: Vec<T>, o1: Option<Vec<T>>, x2: Matrix<T>, y2: Vec<T>, o2: Option<Vec<T>>|
        #![trigger call_ensures(solver, (&x1, &y1), o1), call_ensures(solver, (&x2, &y2), o2)]
        x1@ == x2@ && x1.width() == x2.width() && y1@ == y2@ && call_ensures(
            solver,
            (&x1, &y1),
            o1,
        ) && call_ensures(solver, (&x2, &y2), o2) ==> match (o1, o2) {
            (Some(b1), Some(b2)) => b1@ == b2@,
            (None, None) => true,
            _ => false,
        }
}

/// The squared error is a function of the data: on equal coefficients and
/// equal observations it returns the same value.
pub open spec fn error_is_function<T, E: Fn(&Vec<T>, &Vec<T>, T) -> T>(squared_error: E) -> bool {
    forall|b1: Vec<T>, x1: Vec<T>, b2: Vec<T>, x2: Vec<T>, y: T, e1: T, e2: T|
        #![trigger call_ensures(squared_error, (&b1, &x1, y), e1), call_ensures(squared_error, (&b2, &x2, y), e2)]
        b1@ == b2@ && x1@ == x2@ && call_ensures(squared_error, (&b1, &x1, y), e1)
            && call_ensures(squared_error, (&b2, &x2, y), e2) ==> e1 == e2
}

/// With a solver and an error function that are functions of their data, the
/// score of a fold is a function of the fold's data.
pub proof fn lemma_scores_are_function<T, S, E>(
    sample: Sample<T>,
    solver: S,
    squared_error: E,
    params: nat,
) where S: Fn(&Matrix<T>, &Vec<T>) -> Option<Vec<T>>, E: Fn(&Vec<T>, &Vec<T>, T) -> T
    requires
        solver_is_function(solver),
        error_is_function(squared_error),
    ensures
        judge_is_function(sample, by_solver(solver, squared_error, params)),
{
    let judge = by_solver(solver, squared_error, params);
    assert forall|i: int, a: Fold<T>, b: Fold<T>, x: Option<T>, y: Option<T>|
        #![trigger a.leaves_out(sample, i), judge(a, x), judge(b, y)]
        a.leaves_out(sample, i) && b.leaves_out(sample, i) && judge(a, x) && judge(
            b,
            y,
        ) implies x == y by {
        let sa = choose|solution: Option<Vec<T>>| #[trigger]
            call_ensures(solver, (&a.train_x, &a.train_y), solution) && if accepted(
                solution,
                params,
            ) {
                x matches Some(error) && call_ensures(
                    squared_error,
                    (&solution->0, &a.test_x, a.test_y),
                    error,
                )
            } else {
                x is None
            };
        let sb = choose|solution: Option<Vec<T>>| #[trigger]
            call_ensures(solver, (&b.train_x, &b.train_y), solution) && if accepted(
                solution,
                params,
            ) {
                y matches Some(error) && call_ensures(
                    squared_error,
                    (&solution->0, &b.test_x, b.test_y),
                    error,
                )
            } else {
                y is None
            };
        assert(call_ensures(solver, (&a.train_x, &a.train_y), sa));
        assert(call_ensures(solver, (&b.train_x, &b.train_y), sb));
        if accepted(sa, params) {
            assert(accepted(sb, params));
            assert(call_ensures(squared_error, (&sa->0, &a.test_x, a.test_y), x->0));
            assert(call_ensures(squared_error, (&sb->0, &b.test_x, b.test_y), y->0));
        }
    }
}

/// The PRESS statistic has every property that the start of the sum has,
/// that every value of the error function has and that the addition hands on
/// from its operands to the sum, and so has each fold error: with squares
/// that are never negative, added from zero, neither is the statistic.
pub proof fn lemma_press_keeps<T, S, E, A>(
    sample: Sample<T>,
    solver: S,
    squared_error: E,
    zero: T,
    plus: A,
    errors: Seq<T>,
    press: T,
    keeps: spec_fn(T) -> bool,
) where
    S: Fn(&Matrix<T>, &Vec<T>) -> Option<Vec<T>>,
    E: Fn(&Vec<T>, &Vec<T>, T) -> T,
    A: Fn(T, T) -> T,

    requires
        cross_validated(sample, by_solver(solver, squared_error, sample.params), Ok(errors)),
        summed_in_order(plus, zero, errors, press),
        keeps(zero),
        forall|beta: Vec<T>, row: Vec<T>, y: T, e: T|
            #[trigger] call_ensures(squared_error, (&beta, &row, y), e) ==> keeps(e),
        forall|a: T, b: T, c: T|
            keeps(a) && keeps(b) && #[trigger] call_ensures(plus, (a, b), c) ==> keeps(c),
    ensures
        forall|i: int| 0 <= i < errors.len() ==> keeps(#[trigger] errors[i]),
        keeps(press),
{
    let judge = by_solver(solver, squared_error, sample.params);
    let outcomes = choose|outcomes: Seq<Option<T>>| #[trigger]
        is_run(sample, judge, outcomes) && gathered(outcomes, Ok(errors));
    assert forall|i: int| 0 <= i < errors.len() implies keeps(#[trigger] errors[i]) by {
        assert(outcomes[i] == Some(errors[i]));
        assert(scored(sample, judge, i, outcomes[i]));
        let fold = choose|fold: Fold<T>| #[trigger]
            fold.leaves_out(sample, i) && judge(fold, outcomes[i]);
        assert(fold_scored(solver, squared_error, fold, sample.params, outcomes[i]));
    }
    lemma_sum_keeps(plus, zero, errors, press, keeps);
}

/// Two full-sample solves of one sample end alike: with solutions of equal
/// coefficients, or with the same failure.
pub proof fn lemma_solutions_agree<T, S: Fn(&Matrix<T>, &Vec<T>) -> Option<Vec<T>>>(
    sample: Sample<T>,
    solver: S,
    first: Result<Vec<T>, FitError>,
    second: Result<Vec<T>, FitError>,
)
    requires
        solver_is_function(solver),
        solved(sample, solver, first),
        solved(sample, solver, second),
    ensures
        match (first, second) {
            (Ok(b1), Ok(b2)) => b1@ == b2@,
            (Err(d), Err(e)) => d == e,
            _ => false,
        },
{
    let (x1, y1, o1) = choose|x: Matrix<T>, y: Vec<T>, outcome: Option<Vec<T>>|
        is_sample(sample, x, y) && #[trigger] call_ensures(solver, (&x, &y), outcome)
            && if accepted(outcome, sample.params) {
            first == Ok::<Vec<T>, FitError>(outcome->0)
        } else {
            first == Err::<Vec<T>, FitError>(FitError::SolveFailed)
        };
    let (x2, y2, o2) = choose|x: Matrix<T>, y: Vec<T>, outcome: Option<Vec<T>>|
        is_sample(sample, x, y) && #[trigger] call_ensures(solver, (&x, &y), outcome)
            && if accepted(outcome, sample.params) {
            second == Ok::<Vec<T>, FitError>(outcome->0)
        } else {
            second == Err::<Vec<T>, FitError>(FitError::SolveFailed)
        };
    assert(call_ensures(solver, (&x1, &y1), o1));
    assert(call_ensures(solver, (&x2, &y2), o2));
}

/// The squared residuals of one sample under coefficients that are equal are
/// equal, observation by observation.
pub proof fn lemma_residuals_agree<T, E: Fn(&Vec<T>, &Vec<T>, T) -> T>(
    sample: Sample<T>,
    squared_error: E,
    beta1: Vec<T>,
    beta2: Vec<T>,
    first: Seq<T>,
    second: Seq<T>,
)
    requires
        error_is_function(squared_error),
        beta1@ == beta2@,
        squared_residuals(sample, squared_error, beta1, first),
        squared_residuals(sample, squared_error, beta2, second),
    ensures
        first == second,
{
    assert forall|i: int| 0 <= i < first.len() implies first[i] == second[i] by {
        assert(squared_residual(sample, squared_error, beta1, i, first[i]));
        assert(squared_residual(sample, squared_error, beta2, i, second[i]));
        let r1 = choose|row: Vec<T>|
            row@ == sample.rows[i] && #[trigger] call_ensures(
                squared_error,
                (&beta1, &row, sample.responses[i]),
                first[i],
            );
        let r2 = choose|row: Vec<T>|
            row@ == sample.rows[i] && #[trigger] call_ensures(
                squared_error,
                (&beta2, &row, sample.responses[i]),
                second[i],
            );
        assert(call_ensures(squared_error, (&beta1, &r1, sample.responses[i]), first[i]));
        assert(call_ensures(squared_error, (&beta2, &r2, sample.responses[i]), second[i]));
    }
    assert(first =~= second);
}

/// Scores one fold: solves on its training data and evaluates the solution on
/// the held-out observation.
pub fn score_fold<T: Copy, S, E>(
    fold: Fold<T>,
    params: usize,
    solver: &S,
    squared_error: &E,
) -> (outcome: Option<T>) where
    S: Fn(&Matrix<T>, &Vec<T>) -> Option<Vec<T>>,
    E: Fn(&Vec<T>, &Vec<T>, T) -> T,

    requires
        can_score(solver, squared_error, fold, params as nat),
    ensures
        fold_scored(*solver, *squared_error, fold, params as nat, outcome),
{
    let solution = solver(&fold.train_x, &fold.train_y);
    match accept_solution(solution, params) {
        Some(beta) => Some(squared_error(&beta, &fold.test_x, fold.test_y)),
        None => None,
    }
}

impl<T: Copy> Design<T> {
    /// Solves the full sample with `solver`. The solve has failed if the
    /// solver returns nothing, or a solution that has not one coefficient per
    /// parameter.
    pub fn solve<S>(&self, solver: &S) -> (r: Result<Vec<T>, FitError>) where
        S: Fn(&Matrix<T>, &Vec<T>) -> Option<Vec<T>>,

        requires
            forall|x: Matrix<T>, y: Vec<T>|
                is_sample(self@, x, y) ==> #[trigger] call_requires(*solver, (&x, &y)),
        ensures
            solved(self@, *solver, r),
            r matches Ok(beta) ==> beta@.len() == self@.params,
    {
        let params: usize = self.size_params();
        let outcome = solver(self.exog(), self.endog());
        match accept_solution(outcome, params) {
            Some(beta) => Ok(beta),
            None => Err(FitError::SolveFailed),
        }
    }

    /// The residual sum of squares under `beta`: the squared residual of
    /// each observation, taken with `squared_error`, added to `zero` with
    /// `plus` from the first observation to the last.
    pub fn rss<E, A>(&self, beta: &Vec<T>, squared_error: &E, zero: T, plus: &A) -> (total: T) where
        E: Fn(&Vec<T>, &Vec<T>, T) -> T,
        A: Fn(T, T) -> T,

        requires
            forall|i: int, row: Vec<T>|
                0 <= i < self@.samples() && row@ == self@.rows[i] ==> #[trigger] call_requires(
                    *squared_error,
                    (beta, &row, self@.responses[i]),
                ),
            forall|a: T, b: T| call_requires(*plus, (a, b)),
        ensures
            exists|squares: Seq<T>| #[trigger]
                squared_residuals(self@, *squared_error, *beta, squares) && summed_in_order(
                    *plus,
                    zero,
                    squares,
                    total,
                ),
    {
        let count: usize = self.size_samples();
        let x = self.exog();
        let y = self.endog();
        let mut squares: Vec<T> = Vec::new();
        let mut i: usize = 0;
        while i < count
            invariant
                i <= count,
                count == self@.samples(),
                x@ == self@.rows,
                y@ == self@.responses,
                y@.len() == self@.samples(),
                squares@.len() == i,
                forall|i: int, row: Vec<T>|
                    0 <= i < self@.samples() && row@ == self@.rows[i] ==> #[trigger] call_requires(
                        *squared_error,
                        (beta, &row, self@.responses[i]),
                    ),
                forall|k: int|
                    0 <= k < i ==> squared_residual(
                        self@,
                        *squared_error,
                        *beta,
                        k,
                        #[trigger] squares@[k],
                    ),
            decreases count - i,
        {
            let row = x.row(i);
            let square = squared_error(beta, &row, y[i]);
            squares.push(square);
            i += 1;
        }
        assert(squared_residuals(self@, *squared_error, *beta, squares@));
        sum_in_order(&squares, zero, plus)
    }
}

} // verus!
