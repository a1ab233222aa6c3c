//! The fit: from the raw inputs to the fitted model.
//!
//! A fit checks the shapes, measures the spread of the response, solves the
//! full sample, takes the residual sum of squares, cross-validates, and puts
//! the statistics together. Whatever fails on the way fails the fit. Each step
//! is stated as a relation between what went in and what came out, and the
//! whole as the chain of them.

use vstd::prelude::*;
use crate::design::{dimension_error, param_count, sample_of, Design, Sample};
use crate::error::{ErrorKind, FitError};
use crate::loocv::{cross_validated, lemma_cross_validation_determined, lemma_fold_shape, Fold};
use crate::matrix::Matrix;
use crate::model::{spread_error, Spread, Statistics, OLS};
use crate::numerics::Numerics;
use crate::solve::{
    by_solver, can_score, error_is_function, lemma_residuals_agree, lemma_scores_are_function,
    lemma_solutions_agree, solved, solver_is_function, squared_residuals,
};
use crate::sums::{lemma_sums_agree, plus_is_function, summed_in_order};

verus! {

impl<T, Solve, Error, Plus, Tss, Var, IsZero, R2, R2Adj, R2Pred> Numerics<
    T,
    Solve,
    Error,
    Plus,
    Tss,
    Var,
    IsZero,
    R2,
    R2Adj,
    R2Pred,
> where
    Solve: Fn(&Matrix<T>, &Vec<T>) -> Option<Vec<T>>,
    Error: Fn(&Vec<T>, &Vec<T>, T) -> T,
    Plus: Fn(T, T) -> T,
    Tss: Fn(&Vec<T>) -> T,
    Var: Fn(&Vec<T>) -> T,
    IsZero: Fn(T) -> bool,
    R2: Fn(T, T) -> T,
    R2Adj: Fn(T, T, usize, usize) -> T,
    R2Pred: Fn(T, T, usize) -> T,
 {
    /// How these functions score a fold of a sample with `params`
    /// parameters.
    pub open spec fn judge(&self, params: nat) -> spec_fn(Fold<T>, Option<T>) -> bool {
        by_solver(self.solver, self.squared_error, params)
    }

    /// Last step of a fit: the three coefficients of determination are taken
    /// from the sums of squares, the variance, the sample size and the
    /// degrees of freedom, and the model holds all of them.
    pub open spec fn assembled(
        &self,
        sample: Sample<T>,
        tss: T,
        var: T,
        rss: T,
        press: T,
        result: Result<OLS<T>, FitError>,
    ) -> bool {
        exists|r2: T, r2_adjusted: T, r2_predicted: T|
            #![trigger call_ensures(self.r2, (tss, rss), r2), call_ensures(self.r2_adjusted, (tss, rss, (sample.samples() - sample.params) as usize, (sample.samples() - 1) as usize), r2_adjusted), call_ensures(self.r2_predicted, (press, var, sample.samples() as usize), r2_predicted)]
            call_ensures(self.r2, (tss, rss), r2) && call_ensures(
                self.r2_adjusted,
                (
                    tss,
                    rss,
                    (sample.samples() - sample.params) as usize,
                    (sample.samples() - 1) as usize,
                ),
                r2_adjusted,
            ) && call_ensures(
                self.r2_predicted,
                (press, var, sample.samples() as usize),
                r2_predicted,
            ) && (result matches Ok(model) && model.wf() && model.samples() == sample.samples()
                && model.params() == sample.params && model.statistics() == (Statistics {
                tss,
                rss,
                press,
                r2,
                r2_adjusted,
                r2_predicted,
                var,
            }))
    }

    /// Fourth step of a fit: the sample is cross-validated. A failed fold
    /// fails the fit; otherwise the squared prediction errors are added up,
    /// in fold order, to the PRESS statistic.
    pub open spec fn cross_validated_then(
        &self,
        sample: Sample<T>,
        tss: T,
        var: T,
        rss: T,
        result: Result<OLS<T>, FitError>,
    ) -> bool {
        exists|run: Result<Seq<T>, FitError>| #[trigger]
            cross_validated(sample, self.judge(sample.params), run) && match run {
                Err(e) => result matches Err(found) && found == e,
                Ok(errors) => exists|press: T| #[trigger]
                    summed_in_order(self.plus, self.zero, errors, press) && self.assembled(
                        sample,
                        tss,
                        var,
                        rss,
                        press,
                        result,
                    ),
            }
    }

    /// Third step of a fit: the squared residuals under the full-sample
    /// solution are added up, first observation to last, to the residual sum
    /// of squares.
    pub open spec fn residuals_then(
        &self,
        sample: Sample<T>,
        tss: T,
        var: T,
        beta: Vec<T>,
        result: Result<OLS<T>, FitError>,
    ) -> bool {
        exists|squares: Seq<T>, rss: T|
            #![trigger squared_residuals(sample, self.squared_error, beta, squares), summed_in_order(self.plus, self.zero, squares, rss)]
            squared_residuals(sample, self.squared_error, beta, squares) && summed_in_order(
                self.plus,
                self.zero,
                squares,
                rss,
            ) && self.cross_validated_then(sample, tss, var, rss, result)
    }

    /// Second step of a fit: the full sample is solved. A failed solve fails
    /// the fit.
    pub open spec fn solved_then(
        &self,
        sample: Sample<T>,
        tss: T,
        var: T,
        result: Result<OLS<T>, FitError>,
    ) -> bool {
        exists|solution: Result<Vec<T>, FitError>| #[trigger]
            solved(sample, self.solver, solution) && match solution {
                Err(e) => result matches Err(found) && found == e,
                Ok(beta) => self.residuals_then(sample, tss, var, beta, result),
            }
    }

    /// A fit of a sample, from its first step: the total sum of squares and
    /// the variance of the responses are taken and tested for zero. A
    /// response without spread fails the fit before anything is solved.
    pub open spec fn fitted(&self, sample: Sample<T>, result: Result<OLS<T>, FitError>) -> bool {
        exists|y: Vec<T>, tss: T, var: T, var_is_zero: bool, tss_is_zero: bool|
            #![trigger call_ensures(self.tss, (&y,), tss), call_ensures(self.is_zero, (var,), var_is_zero), call_ensures(self.is_zero, (tss,), tss_is_zero)]
            y@ == sample.responses && call_ensures(self.tss, (&y,), tss) && call_ensures(
                self.var,
                (&y,),
                var,
            ) && call_ensures(self.is_zero, (var,), var_is_zero) && call_ensures(
                self.is_zero,
                (tss,),
                tss_is_zero,
            ) && match spread_error(var_is_zero, tss_is_zero) {
                Some(e) => result matches Err(found) && found == e,
                None => self.solved_then(sample, tss, var, result),
            }
    }

    /// A fit from the raw inputs: shapes that are refused fail the fit before
    /// any function of the bundle is called; accepted shapes give the sample,
    /// with the intercept column if it was asked for, and the fit of that
    /// sample.
    pub open spec fn fitted_from(
        &self,
        exog: Matrix<T>,
        endog: Seq<T>,
        add_constant: bool,
        result: Result<OLS<T>, FitError>,
    ) -> bool {
        match dimension_error(
            exog@.len() as usize,
            exog.width() as usize,
            endog.len() as usize,
            add_constant,
        ) {
            Some(e) => result matches Err(found) && found == e,
            None => self.fitted(
                sample_of(
                    exog@,
                    exog.width(),
                    endog,
                    if add_constant {
                        Some(self.one)
                    } else {
                        None
                    },
                ),
                result,
            ),
        }
    }
}

impl<T, Solve, Error, Plus, Tss, Var, IsZero, R2, R2Adj, R2Pred> Numerics<
    T,
    Solve,
    Error,
    Plus,
    Tss,
    Var,
    IsZero,
    R2,
    R2Adj,
    R2Pred,
> where
    Solve: Fn(&Matrix<T>, &Vec<T>) -> Option<Vec<T>>,
    Error: Fn(&Vec<T>, &Vec<T>, T) -> T,
    Plus: Fn(T, T) -> T,
    Tss: Fn(&Vec<T>) -> T,
    Var: Fn(&Vec<T>) -> T,
    IsZero: Fn(T) -> bool,
    R2: Fn(T, T) -> T,
    R2Adj: Fn(T, T, usize, usize) -> T,
    R2Pred: Fn(T, T, usize) -> T,
 {
    /// Every function of the bundle is a function of its data: called twice
    /// on equal data, it returns equal results.
    pub open spec fn deterministic(&self) -> bool {
        &&& solver_is_function(self.solver)
        &&& error_is_function(self.squared_error)
        &&& plus_is_function(self.plus)
        &&& forall|y1: Vec<T>, y2: Vec<T>, a: T, b: T|
            #![trigger call_ensures(self.tss, (&y1,), a), call_ensures(self.tss, (&y2,), b)]
            y1@ == y2@ && call_ensures(self.tss, (&y1,), a) && call_ensures(self.tss, (&y2,), b)
                ==> a == b
        &&& forall|y1: Vec<T>, y2: Vec<T>, a: T, b: T|
            #![trigger call_ensures(self.var, (&y1,), a), call_ensures(self.var, (&y2,), b)]
            y1@ == y2@ && call_ensures(self.var, (&y1,), a) && call_ensures(self.var, (&y2,), b)
                ==> a == b
        &&& forall|v: T, a: bool, b: bool|
            #![trigger call_ensures(self.is_zero, (v,), a), call_ensures(self.is_zero, (v,), b)]
            call_ensures(self.is_zero, (v,), a) && call_ensures(self.is_zero, (v,), b) ==> a == b
        &&& forall|tss: T, rss: T, a: T, b: T|
            #![trigger call_ensures(self.r2, (tss, rss), a), call_ensures(self.r2, (tss, rss), b)]
            call_ensures(self.r2, (tss, rss), a) && call_ensures(self.r2, (tss, rss), b) ==> a
                == b
        &&& forall|tss: T, rss: T, df_residual: usize, df_total: usize, a: T, b: T|
            #![trigger call_ensures(self.r2_adjusted, (tss, rss, df_residual, df_total), a), call_ensures(self.r2_adjusted, (tss, rss, df_residual, df_total), b)]
            call_ensures(self.r2_adjusted, (tss, rss, df_residual, df_total), a) && call_ensures(
                self.r2_adjusted,
                (tss, rss, df_residual, df_total),
                b,
            ) ==> a == b
        &&& forall|press: T, var: T, n: usize, a: T, b: T|
            #![trigger call_ensures(self.r2_predicted, (press, var, n), a), call_ensures(self.r2_predicted, (press, var, n), b)]
            call_ensures(self.r2_predicted, (press, var, n), a) && call_ensures(
                self.r2_predicted,
                (press, var, n),
                b,
            ) ==> a == b
    }

    /// A fit of exactly as many observations as parameters is refused as
    /// degenerate input, whatever the data.
    pub proof fn lemma_square_fit_is_degenerate(
        &self,
        exog: Matrix<T>,
        endog: Seq<T>,
        add_constant: bool,
        result: Result<OLS<T>, FitError>,
    )
        requires
            exog@.len() == endog.len(),
            exog@.len() == param_count(exog.width(), add_constant),
            self.fitted_from(exog, endog, add_constant, result),
        ensures
            (result matches Err(e) && e.spec_kind() == ErrorKind::DegenerateInput),
    {
        exog.lemma_dimensions();
    }

    /// Two fits of identical inputs end alike: with models that hold the
    /// same counts and the same statistics, value for value, or with the same
    /// failure. Neither the scheduling of the folds nor the number of workers
    /// has a part in it.
    pub proof fn lemma_fit_determined(
        &self,
        exog: Matrix<T>,
        endog: Seq<T>,
        add_constant: bool,
        first: Result<OLS<T>, FitError>,
        second: Result<OLS<T>, FitError>,
    )
        requires
            self.deterministic(),
            self.fitted_from(exog, endog, add_constant, first),
            self.fitted_from(exog, endog, add_constant, second),
        ensures
            first == second,
    {
        let refused = dimension_error(
            exog@.len() as usize,
            exog.width() as usize,
            endog.len() as usize,
            add_constant,
        );
        if refused is None {
            let constant = if add_constant {
                Some(self.one)
            } else {
                None
            };
            self.lemma_fitted_once(sample_of(exog@, exog.width(), endog, constant), first, second);
        }
    }

    /// Two fits of one sample end alike.
    pub proof fn lemma_fitted_once(
        &self,
        sample: Sample<T>,
        first: Result<OLS<T>, FitError>,
        second: Result<OLS<T>, FitError>,
    )
        requires
            self.deterministic(),
            self.fitted(sample, first),
            self.fitted(sample, second),
        ensures
            first == second,
    {
        let (y1, tss1, var1, vz1, tz1) = choose|
            y: Vec<T>,
            tss: T,
            var: T,
            var_is_zero: bool,
            tss_is_zero: bool,
        |
            #![trigger call_ensures(self.tss, (&y,), tss), call_ensures(self.is_zero, (var,), var_is_zero), call_ensures(self.is_zero, (tss,), tss_is_zero)]
            y@ == sample.responses && call_ensures(self.tss, (&y,), tss) && call_ensures(
                self.var,
                (&y,),
                var,
            ) && call_ensures(self.is_zero, (var,), var_is_zero) && call_ensures(
                self.is_zero,
                (tss,),
                tss_is_zero,
            ) && match spread_error(var_is_zero, tss_is_zero) {
                Some(e) => first matches Err(found) && found == e,
                None => self.solved_then(sample, tss, var, first),
            };
        let (y2, tss2, var2, vz2, tz2) = choose|
            y: Vec<T>,
            tss: T,
            var: T,
            var_is_zero: bool,
            tss_is_zero: bool,
        |
            #![trigger call_ensures(self.tss, (&y,), tss), call_ensures(self.is_zero, (var,), var_is_zero), call_ensures(self.is_zero, (tss,), tss_is_zero)]
            y@ == sample.responses && call_ensures(self.tss, (&y,), tss) && call_ensures(
                self.var,
                (&y,),
                var,
            ) && call_ensures(self.is_zero, (var,), var_is_zero) && call_ensures(
                self.is_zero,
                (tss,),
                tss_is_zero,
            ) && match spread_error(var_is_zero, tss_is_zero) {
                Some(e) => second matches Err(found) && found == e,
                None => self.solved_then(sample, tss, var, second),
            };
        assert(call_ensures(self.tss, (&y1,), tss1) && call_ensures(self.tss, (&y2,), tss2));
        assert(call_ensures(self.var, (&y1,), var1) && call_ensures(self.var, (&y2,), var2));
        assert(tss1 == tss2);
        assert(var1 == var2);
        assert(call_ensures(self.is_zero, (var1,), vz1) && call_ensures(self.is_zero, (var2,), vz2));
        assert(call_ensures(self.is_zero, (tss1,), tz1) && call_ensures(self.is_zero, (tss2,), tz2));
        assert(vz1 == vz2 && tz1 == tz2);
        if spread_error(vz1, tz1) is None {
            self.lemma_solved_once(sample, tss1, var1, first, second);
        }
    }

    /// From the solve on, two fits of one sample end alike.
    proof fn lemma_solved_once(
        &self,
        sample: Sample<T>,
        tss: T,
        var: T,
        first: Result<OLS<T>, FitError>,
        second: Result<OLS<T>, FitError>,
    )
        requires
            self.deterministic(),
            self.solved_then(sample, tss, var, first),
            self.solved_then(sample, tss, var, second),
        ensures
            first == second,
    {
        let s1 = choose|solution: Result<Vec<T>, FitError>| #[trigger]
            solved(sample, self.solver, solution) && match solution {
                Err(e) => first matches Err(found) && found == e,
                Ok(beta) => self.residuals_then(sample, tss, var, beta, first),
            };
        let s2 = choose|solution: Result<Vec<T>, FitError>| #[trigger]
            solved(sample, self.solver, solution) && match solution {
                Err(e) => second matches Err(found) && found == e,
                Ok(beta) => self.residuals_then(sample, tss, var, beta, second),
            };
        lemma_solutions_agree(sample, self.solver, s1, s2);
        if s1 is Ok {
            let b1 = s1->Ok_0;
            let b2 = s2->Ok_0;
            let (q1, rss1) = choose|squares: Seq<T>, rss: T|
                #![trigger squared_residuals(sample, self.squared_error, b1, squares), summed_in_order(self.plus, self.zero, squares, rss)]
                squared_residuals(sample, self.squared_error, b1, squares) && summed_in_order(
                    self.plus,
                    self.zero,
                    squares,
                    rss,
                ) && self.cross_validated_then(sample, tss, var, rss, first);
            let (q2, rss2) = choose|squares: Seq<T>, rss: T|
                #![trigger squared_residuals(sample, self.squared_error, b2, squares), summed_in_order(self.plus, self.zero, squares, rss)]
                squared_residuals(sample, self.squared_error, b2, squares) && summed_in_order(
                    self.plus,
                    self.zero,
                    squares,
                    rss,
                ) && self.cross_validated_then(sample, tss, var, rss, second);
            lemma_residuals_agree(sample, self.squared_error, b1, b2, q1, q2);
            lemma_sums_agree(self.plus, self.zero, q1, rss1, rss2);
            self.lemma_cross_validated_once(sample, tss, var, rss1, first, second);
        }
    }

    /// From the cross-validation on, two fits of one sample end alike.
    proof fn lemma_cross_validated_once(
        &self,
        sample: Sample<T>,
        tss: T,
        var: T,
        rss: T,
        first: Result<OLS<T>, FitError>,
        second: Result<OLS<T>, FitError>,
    )
        requires
            self.deterministic(),
            self.cross_validated_then(sample, tss, var, rss, first),
            self.cross_validated_then(sample, tss, var, rss, second),
        ensures
            first == second,
    {
        let judge = self.judge(sample.params);
        let run1 = choose|run: Result<Seq<T>, FitError>| #[trigger]
            cross_validated(sample, judge, run) && match run {
                Err(e) => first matches Err(found) && found == e,
                Ok(errors) => exists|press: T| #[trigger]
                    summed_in_order(self.plus, self.zero, errors, press) && self.assembled(
                        sample,
                        tss,
                        var,
                        rss,
                        press,
                        first,
                    ),
            };
        let run2 = choose|run: Result<Seq<T>, FitError>| #[trigger]
            cross_validated(sample, judge, run) && match run {
                Err(e) => second matches Err(found) && found == e,
                Ok(errors) => exists|press: T| #[trigger]
                    summed_in_order(self.plus, self.zero, errors, press) && self.assembled(
                        sample,
                        tss,
                        var,
                        rss,
                        press,
                        second,
                    ),
            };
        lemma_scores_are_function(sample, self.solver, self.squared_error, sample.params);
        lemma_cross_validation_determined(sample, judge, run1, run2);
        if run1 is Ok {
            let errors = run1->Ok_0;
            let press1 = choose|press: T| #[trigger]
                summed_in_order(self.plus, self.zero, errors, press) && self.assembled(
                    sample,
                    tss,
                    var,
                    rss,
                    press,
                    first,
                );
            let press2 = choose|press: T| #[trigger]
                summed_in_order(self.plus, self.zero, errors, press) && self.assembled(
                    sample,
                    tss,
                    var,
                    rss,
                    press,
                    second,
                );
            lemma_sums_agree(self.plus, self.zero, errors, press1, press2);
            assert(self.assembled(sample, tss, var, rss, press1, first));
            assert(self.assembled(sample, tss, var, rss, press1, second));
            first->Ok_0.lemma_same(second->Ok_0);
        }
    }
}

impl<T: Copy + Send + Sync> OLS<T> {
    /// Fits the model to the predictors `exog` and the responses `endog`,
    /// with an intercept column if `add_constant`, using the arithmetic of
    /// `numerics`.
    pub fn new<Solve, Error, Plus, Tss, Var, IsZero, R2, R2Adj, R2Pred>(
        exog: Matrix<T>,
        endog: Vec<T>,
        add_constant: bool,
        numerics: &Numerics<T, Solve, Error, Plus, Tss, Var, IsZero, R2, R2Adj, R2Pred>,
    ) -> (r: Result<OLS<T>, FitError>) where
        Solve: Fn(&Matrix<T>, &Vec<T>) -> Option<Vec<T>> + Sync,
        Error: Fn(&Vec<T>, &Vec<T>, T) -> T + Sync,
        Plus: Fn(T, T) -> T,
        Tss: Fn(&Vec<T>) -> T,
        Var: Fn(&Vec<T>) -> T,
        IsZero: Fn(T) -> bool,
        R2: Fn(T, T) -> T,
        R2Adj: Fn(T, T, usize, usize) -> T,
        R2Pred: Fn(T, T, usize) -> T,

        requires
            numerics.callable(),
        ensures
            numerics.fitted_from(exog, endog@, add_constant, r),
    {
        let constant = if add_constant {
            Some(numerics.one)
        } else {
            None
        };
        match Design::new(exog, endog, constant) {
            Ok(design) => OLS::fit(&design, numerics),
            Err(e) => Err(e),
        }
    }

    /// Fits the model to a design.
    pub fn fit<Solve, Error, Plus, Tss, Var, IsZero, R2, R2Adj, R2Pred>(
        design: &Design<T>,
        numerics: &Numerics<T, Solve, Error, Plus, Tss, Var, IsZero, R2, R2Adj, R2Pred>,
    ) -> (r: Result<OLS<T>, FitError>) where
        Solve: Fn(&Matrix<T>, &Vec<T>) -> Option<Vec<T>> + Sync,
        Error: Fn(&Vec<T>, &Vec<T>, T) -> T + Sync,
        Plus: Fn(T, T) -> T,
        Tss: Fn(&Vec<T>) -> T,
        Var: Fn(&Vec<T>) -> T,
        IsZero: Fn(T) -> bool,
        R2: Fn(T, T) -> T,
        R2Adj: Fn(T, T, usize, usize) -> T,
        R2Pred: Fn(T, T, usize) -> T,

        requires
            numerics.callable(),
        ensures
            numerics.fitted(design@, r),
    {
        let y = design.endog();
        proof {
            assert forall|i: int, fold: Fold<T>|
                0 <= i < design@.samples() && #[trigger] fold.leaves_out(
                    design@,
                    i,
                ) implies can_score(
                &numerics.solver,
                &numerics.squared_error,
                fold,
                design@.params,
            ) by {
                lemma_fold_shape(design@, fold, i);
            }
        }
        let tss = (numerics.tss)(y);
        let var = (numerics.var)(y);
        let var_is_zero = (numerics.is_zero)(var);
        let tss_is_zero = (numerics.is_zero)(tss);
        let spread = match Spread::new(tss, tss_is_zero, var, var_is_zero) {
            Ok(spread) => spread,
            Err(e) => {
                return Err(e);
            },
        };
        let beta = match design.solve(&numerics.solver) {
            Ok(beta) => beta,
            Err(e) => {
                return Err(e);
            },
        };
        let rss = design.rss(&beta, &numerics.squared_error, numerics.zero, &numerics.plus);
        let press = match design.press(
            &numerics.solver,
            &numerics.squared_error,
            numerics.zero,
            &numerics.plus,
        ) {
            Ok((press, errors)) => {
                assert(cross_validated(
                    design@,
                    numerics.judge(design@.params),
                    Ok::<Seq<T>, FitError>(errors@),
                ));
                press
            },
            Err(e) => {
                proof {
                    let failed: Result<OLS<T>, FitError> = Err(e);
                    assert(cross_validated(
                        design@,
                        numerics.judge(design@.params),
                        Err::<Seq<T>, FitError>(e),
                    ));
                    assert(numerics.cross_validated_then(design@, tss, var, rss, failed));
                    assert(numerics.residuals_then(design@, tss, var, beta, failed));
                }
                return Err(e);
            },
        };
        let r2 = (numerics.r2)(tss, rss);
        let r2_adjusted = (numerics.r2_adjusted)(tss, rss, design.df_residual(), design.df_total());
        let r2_predicted = (numerics.r2_predicted)(press, var, design.size_samples());
        let model = OLS::from_parts(design, &spread, rss, press, r2, r2_adjusted, r2_predicted);
        proof {
            let fitted: Result<OLS<T>, FitError> = Ok(model);
            assert(numerics.assembled(design@, tss, var, rss, press, fitted));
            assert(numerics.cross_validated_then(design@, tss, var, rss, fitted));
            assert(numerics.residuals_then(design@, tss, var, beta, fitted));
        }
        Ok(model)
    }
}

} // verus!
