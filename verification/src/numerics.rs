//! The arithmetic that a fit is made with.
//!
//! The library is generic over the scalar type and does no arithmetic of its
//! own. What a fit needs of it comes in one bundle of functions: the
//! least-squares solver, the squared prediction error, the addition, the two
//! measures of spread, the test for zero, and the three coefficients of
//! determination. The fields say what each is meant to compute; a fit relies
//! on none of it, and its contract states only which function was given what
//! and where its result went.

use vstd::prelude::*;
use crate::matrix::Matrix;

verus! {

/// The functions of a scalar type `T` that a fit calls.
pub struct Numerics<T, Solve, Error, Plus, Tss, Var, IsZero, R2, R2Adj, R2Pred> {
    /// The value that sums start from.
    pub zero: T,
    /// The value that fills the intercept column.
    pub one: T,
    /// The minimum-norm least-squares solution of a design matrix and its
    /// responses: one coefficient per column, or nothing if the solve fails.
    pub solver: Solve,
    /// The squared error of predicting a response: takes the coefficients, a
    /// row of the design matrix and the observed response, and returns the
    /// square of the response less the product of row and coefficients.
    pub squared_error: Error,
    /// The sum of two values.
    pub plus: Plus,
    /// The total sum of squares: the sum of the squared deviations of the
    /// responses from their mean.
    pub tss: Tss,
    /// The population variance of the responses (divisor: their number).
    pub var: Var,
    /// Whether a value is zero.
    pub is_zero: IsZero,
    /// The coefficient of determination: takes the total and the residual sum
    /// of squares, and returns one less their ratio `rss / tss`.
    pub r2: R2,
    /// The adjusted coefficient of determination: takes the total and the
    /// residual sum of squares and the residual and the total degrees of
    /// freedom, and returns one less the ratio of `rss / df_residual` to
    /// `tss / df_total`.
    pub r2_adjusted: R2Adj,
    /// The predicted coefficient of determination: takes the PRESS statistic,
    /// the population variance and the sample size, and returns one less
    /// `(press / var) / n`.
    pub r2_predicted: R2Pred,
}

impl<T, Solve, Error, Plus, Tss, Var, IsZero, R2, R2Adj, R2Pred> Numerics<
    T,
    Solve,
    Error,
    Plus,
    Tss,
    Var,
    IsZero,
    R2,
    R2Adj,
    R2Pred,
> where
    Solve: Fn(&Matrix<T>, &Vec<T>) -> Option<Vec<T>>,
    Error: Fn(&Vec<T>, &Vec<T>, T) -> T,
    Plus: Fn(T, T) -> T,
    Tss: Fn(&Vec<T>) -> T,
    Var: Fn(&Vec<T>) -> T,
    IsZero: Fn(T) -> bool,
    R2: Fn(T, T) -> T,
    R2Adj: Fn(T, T, usize, usize) -> T,
    R2Pred: Fn(T, T, usize) -> T,
 {
    /// The functions may be called with whatever a fit hands them: the solver
    /// with a matrix and one response per row; the squared error with as many
    /// coefficients as the row is wide; the measures of spread with two
    /// responses or more; the adjusted coefficient with degrees of freedom
    /// that are not zero; the predicted coefficient with a sample of two or
    /// more; the others with any values.
    pub open spec fn callable(&self) -> bool {
        &&& forall|x: Matrix<T>, y: Vec<T>|
            x.wf() && x@.len() == y@.len() ==> #[trigger] call_requires(self.solver, (&x, &y))
        &&& forall|beta: Vec<T>, row: Vec<T>, y: T|
            beta@.len() == row@.len() ==> #[trigger] call_requires(
                self.squared_error,
                (&beta, &row, y),
            )
        &&& forall|a: T, b: T| call_requires(self.plus, (a, b))
        &&& forall|y: Vec<T>| y@.len() >= 2 ==> #[trigger] call_requires(self.tss, (&y,))
        &&& forall|y: Vec<T>| y@.len() >= 2 ==> #[trigger] call_requires(self.var, (&y,))
        &&& forall|v: T| call_requires(self.is_zero, (v,))
        &&& forall|tss: T, rss: T| call_requires(self.r2, (tss, rss))
        &&& forall|tss: T, rss: T, df_residual: usize, df_total: usize|
            df_residual >= 1 && df_total >= 1 ==> #[trigger] call_requires(
                self.r2_adjusted,
                (tss, rss, df_residual, df_total),
            )
        &&& forall|press: T, var: T, n: usize|
            n >= 2 ==> #[trigger] call_requires(self.r2_predicted, (press, var, n))
    }
}

} // verus!
