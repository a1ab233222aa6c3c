//! Leave-one-out cross-validation: one fold per observation.
//!
//! Fold `i` trains on every observation but `i` and is tested on observation
//! `i`, taken from the unchanged design. The folds are independent, so they are
//! scored on the worker pool; the outcomes are kept by fold index, whatever the
//! order in which the workers finish. One failed fold fails the whole run.

use vstd::prelude::*;
use rayon::iter::IndexedParallelIterator;
use rayon::iter::IntoParallelIterator;
use rayon::iter::ParallelIterator;
use crate::design::{Design, Sample};
use crate::error::FitError;
use crate::matrix::{extend_copy, Matrix};
use crate::solve::{by_solver, can_score, fold_scored, score_fold};
use crate::sums::{lemma_sums_agree, plus_is_function, sum_in_order, summed_in_order};

verus! {

/// The data of one fold: what it trains on, and the observation it is tested
/// on. Each fold owns its copies.
#[derive(Debug)]
pub struct Fold<T> {
    /// The design matrix without the held-out row.
    pub train_x: Matrix<T>,
    /// The responses without the held-out one.
    pub train_y: Vec<T>,
    /// The held-out row.
    pub test_x: Vec<T>,
    /// The held-out response.
    pub test_y: T,
}

impl<T> Fold<T> {
    /// This is the fold of `sample` that leaves out observation `i`.
    pub open spec fn leaves_out(self, sample: Sample<T>, i: int) -> bool {
        &&& self.train_x.wf()
        &&& self.train_x.width() == sample.params
        &&& self.train_x@ == sample.rows.remove(i)
        &&& self.train_y@ == sample.responses.remove(i)
        &&& self.test_x@ == sample.rows[i]
        &&& self.test_y == sample.responses[i]
    }
}

/// What a scoring function says of a fold and an outcome: that it returned
/// this outcome for this fold.
pub open spec fn by_score<T, R, F: Fn(Fold<T>) -> R>(score: F) -> spec_fn(Fold<T>, R) -> bool {
    |fold: Fold<T>, outcome: R| call_ensures(score, (fold,), outcome)
}

/// `outcome` is, by `judge`, an outcome of the fold of `sample` that leaves
/// out observation `i`.
pub open spec fn scored<T, R>(
    sample: Sample<T>,
    judge: spec_fn(Fold<T>, R) -> bool,
    i: int,
    outcome: R,
) -> bool {
    exists|fold: Fold<T>| #[trigger] fold.leaves_out(sample, i) && judge(fold, outcome)
}

/// The first fold without an error value, if there is one.
pub open spec fn failed_fold<T>(outcomes: Seq<Option<T>>, k: int) -> bool {
    &&& 0 <= k < outcomes.len()
    &&& outcomes[k] is None
    &&& forall|j: int| 0 <= j < k ==> (#[trigger] outcomes[j]) is Some
}

/// What a run with these outcomes amounts to: the error values in fold order
/// if every fold has one, else the failure of the first fold that has none.
pub open spec fn gathered<T>(outcomes: Seq<Option<T>>, result: Result<Seq<T>, FitError>) -> bool {
    match result {
        Ok(errors) => {
            &&& errors.len() == outcomes.len()
            &&& forall|i: int| 0 <= i < outcomes.len() ==> #[trigger] outcomes[i] == Some(errors[i])
        },
        Err(e) => {
            &&& e matches FitError::FoldFailed { fold }
            &&& failed_fold(outcomes, fold as int)
        },
    }
}

/// `outcomes` is a full run over `sample`: one outcome per fold, in fold
/// order, each being, by `judge`, an outcome of that fold.
pub open spec fn is_run<T, R>(
    sample: Sample<T>,
    judge: spec_fn(Fold<T>, R) -> bool,
    outcomes: Seq<R>,
) -> bool {
    &&& outcomes.len() == sample.samples()
    &&& forall|i: int|
        0 <= i < sample.samples() ==> scored(sample, judge, i, #[trigger] outcomes[i])
}

/// `result` is what a full run over `sample` amounts to: there is one outcome
/// per fold, and `result` is gathered from them.
pub open spec fn cross_validated<T>(
    sample: Sample<T>,
    judge: spec_fn(Fold<T>, Option<T>) -> bool,
    result: Result<Seq<T>, FitError>,
) -> bool {
    exists|outcomes: Seq<Option<T>>| #[trigger]
        is_run(sample, judge, outcomes) && gathered(outcomes, result)
}

/// The outcome of a fold is a function of the fold's data: `judge` admits
/// only one outcome for the fold of one observation.
pub open spec fn judge_is_function<T, R>(
    sample: Sample<T>,
    judge: spec_fn(Fold<T>, R) -> bool,
) -> bool {
    forall|i: int, a: Fold<T>, b: Fold<T>, x: R, y: R|
        #![trigger a.leaves_out(sample, i), judge(a, x), judge(b, y)]
        a.leaves_out(sample, i) && b.leaves_out(sample, i) && judge(a, x) && judge(b, y) ==> x
            == y
}

/// A copy of `items` without the one at position `i`.
pub fn without_index<T: Copy>(items: &Vec<T>, i: usize) -> (r: Vec<T>)
    requires
        i < items@.len(),
    ensures
        r@ == items@.remove(i as int),
{
    let len: usize = items.len();
    let mut r: Vec<T> = Vec::new();
    extend_copy(&mut r, items, 0, i);
    extend_copy(&mut r, items, i + 1, len);
    assert(r@ =~= items@.remove(i as int));
    r
}

/// Gathers the outcomes of the folds, given in fold order, into the vector of
/// squared prediction errors. If a fold has no error value the run has failed:
/// the result names the first such fold and holds no partial values.
pub fn gather_folds<T: Copy>(outcomes: &Vec<Option<T>>) -> (r: Result<Vec<T>, FitError>)
    ensures
        r is Ok <==> forall|i: int| 0 <= i < outcomes@.len() ==> (#[trigger] outcomes@[i]) is Some,
        match r {
            Ok(errors) => gathered(outcomes@, Ok(errors@)),
            Err(e) => gathered(outcomes@, Err(e)),
        },
{
    let mut errors: Vec<T> = Vec::new();
    let mut i: usize = 0;
    while i < outcomes.len()
        invariant
            i <= outcomes@.len(),
            errors@.len() == i,
            forall|j: int| 0 <= j < i ==> #[trigger] outcomes@[j] == Some(errors@[j]),
        decreases outcomes@.len() - i,
    {
        match outcomes[i] {
            Some(value) => {
                errors.push(value);
            },
            None => {
                return Err(FitError::FoldFailed { fold: i });
            },
        }
        i += 1;
    }
    Ok(errors)
}

/// Runs `task` for every index below `count` on rayon's worker pool, through
/// `into_par_iter`, `map` and `collect_into_vec`, and returns the results.
/// Trusted: the vector has one result per index, and the result at position
/// `i` is the one that `task` returned for `i`, in whatever order the workers
/// ran.
#[verifier::external_body]
fn par_map_indices<R, F>(count: usize, task: &F) -> (out: Vec<R>) where
    R: Send,
    F: Fn(usize) -> R + Sync,

    requires
        forall|i: usize| i < count ==> call_requires(*task, (i,)),
    ensures
        out@.len() == count,
        forall|i: int| 0 <= i < count ==> call_ensures(*task, (i as usize,), #[trigger] out@[i]),
{
    let mut out: Vec<R> = Vec::new();
    (0..count).into_par_iter().map(task).collect_into_vec(&mut out);
    out
}

impl<T: Copy> Design<T> {
    /// The fold that leaves out observation `i`.
    pub fn fold(&self, i: usize) -> (fold: Fold<T>)
        requires
            i < self@.samples(),
        ensures
            fold.leaves_out(self@, i as int),
    {
        let x = self.exog();
        let y = self.endog();
        Fold {
            train_x: x.without_row(i),
            train_y: without_index(y, i),
            test_x: x.row(i),
            test_y: y[i],
        }
    }
}

impl<T: Copy + Send + Sync> Design<T> {
    /// Scores every fold with `score`, in parallel, and returns the outcomes
    /// in fold order: position `i` holds what `score` returned for the fold
    /// that leaves out observation `i`.
    pub fn fold_outcomes<R, F>(&self, score: &F) -> (out: Vec<R>) where
        R: Send,
        F: Fn(Fold<T>) -> R + Sync,

        requires
            forall|i: int, fold: Fold<T>|
                0 <= i < self@.samples() && #[trigger] fold.leaves_out(self@, i) ==> call_requires(
                    *score,
                    (fold,),
                ),
        ensures
            is_run(self@, by_score(*score), out@),
    {
        let count: usize = self.size_samples();
        let task = |i: usize| -> (outcome: R)
            requires
                i < count,
            ensures
                scored(self@, by_score(*score), i as int, outcome),
            { score(self.fold(i)) };
        par_map_indices(count, &task)
    }

    /// Runs the whole cross-validation. Each fold is solved on its training
    /// data with `solver`, and its squared prediction error is taken with
    /// `squared_error` on the held-out observation; the folds run in parallel
    /// and the errors come back in fold order. If the solver returns no
    /// usable solution for a fold, the run has failed: the first such fold is
    /// reported and no error value is returned.
    pub fn leave_one_out<S, E>(&self, solver: &S, squared_error: &E) -> (r: Result<
        Vec<T>,
        FitError,
    >) where
        S: Fn(&Matrix<T>, &Vec<T>) -> Option<Vec<T>> + Sync,
        E: Fn(&Vec<T>, &Vec<T>, T) -> T + Sync,

        requires
            forall|i: int, fold: Fold<T>|
                0 <= i < self@.samples() && #[trigger] fold.leaves_out(self@, i) ==> can_score(
                    solver,
                    squared_error,
                    fold,
                    self@.params,
                ),
        ensures
            match r {
                Ok(errors) => cross_validated(
                    self@,
                    by_solver(*solver, *squared_error, self@.params),
                    Ok(errors@),
                ),
                Err(e) => cross_validated(
                    self@,
                    by_solver(*solver, *squared_error, self@.params),
                    Err(e),
                ),
            },
    {
        let params: usize = self.size_params();
        let score = |fold: Fold<T>| -> (outcome: Option<T>)
            requires
                can_score(solver, squared_error, fold, params as nat),
            ensures
                fold_scored(*solver, *squared_error, fold, params as nat, outcome),
            { score_fold(fold, params, solver, squared_error) };
        let outcomes = self.fold_outcomes(&score);
        proof {
            let judge = by_solver(*solver, *squared_error, self@.params);
            assert forall|i: int| 0 <= i < self@.samples() implies scored(
                self@,
                judge,
                i,
                #[trigger] outcomes@[i],
            ) by {
                assert(scored(self@, by_score(score), i, outcomes@[i]));
                let fold = choose|fold: Fold<T>| #[trigger]
                    fold.leaves_out(self@, i) && by_score(score)(fold, outcomes@[i]);
                assert(fold.leaves_out(self@, i) && judge(fold, outcomes@[i]));
            }
            assert(is_run(self@, judge, outcomes@));
        }
        gather_folds(&outcomes)
    }

    /// The PRESS statistic with the fold errors it is made of: runs the whole
    /// cross-validation, then adds the squared prediction errors to `zero`
    /// with `plus`, in fold order, so that the sum does not depend on how the
    /// folds were scheduled.
    pub fn press<S, E, A>(&self, solver: &S, squared_error: &E, zero: T, plus: &A) -> (r: Result<
        (T, Vec<T>),
        FitError,
    >) where
        S: Fn(&Matrix<T>, &Vec<T>) -> Option<Vec<T>> + Sync,
        E: Fn(&Vec<T>, &Vec<T>, T) -> T + Sync,
        A: Fn(T, T) -> T,

        requires
            forall|i: int, fold: Fold<T>|
                0 <= i < self@.samples() && #[trigger] fold.leaves_out(self@, i) ==> can_score(
                    solver,
                    squared_error,
                    fold,
                    self@.params,
                ),
            forall|a: T, b: T| call_requires(*plus, (a, b)),
        ensures
            match r {
                Ok((total, errors)) => cross_validated(
                    self@,
                    by_solver(*solver, *squared_error, self@.params),
                    Ok(errors@),
                ) && summed_in_order(*plus, zero, errors@, total),
                Err(e) => cross_validated(
                    self@,
                    by_solver(*solver, *squared_error, self@.params),
                    Err(e),
                ),
            },
    {
        match self.leave_one_out(solver, squared_error) {
            Ok(errors) => {
                let total = sum_in_order(&errors, zero, plus);
                Ok((total, errors))
            },
            Err(e) => Err(e),
        }
    }
}

/// A fold of a well-formed sample trains on all rows but one, which are at
/// least as many as the parameters, and every row it holds is as wide as
/// there are parameters.
pub proof fn lemma_fold_shape<T>(sample: Sample<T>, fold: Fold<T>, i: int)
    requires
        sample.wf(),
        0 <= i < sample.samples(),
        fold.leaves_out(sample, i),
    ensures
        fold.train_x@.len() == sample.samples() - 1,
        fold.train_y@.len() == sample.samples() - 1,
        fold.train_x@.len() >= sample.params,
        fold.test_x@.len() == sample.params,
        forall|k: int|
            0 <= k < fold.train_x@.len() ==> (#[trigger] fold.train_x@[k]).len()
                == sample.params,
{
    assert forall|k: int| 0 <= k < fold.train_x@.len() implies (#[trigger] fold.train_x@[k]).len()
        == sample.params by {
        if k < i {
            assert(fold.train_x@[k] == sample.rows[k]);
        } else {
            assert(fold.train_x@[k] == sample.rows[k + 1]);
        }
    }
}

/// Two runs over one sample hold the same outcomes at every position,
/// however the folds of either were scheduled.
pub proof fn lemma_runs_agree<T, R>(
    sample: Sample<T>,
    judge: spec_fn(Fold<T>, R) -> bool,
    first: Seq<R>,
    second: Seq<R>,
)
    requires
        judge_is_function(sample, judge),
        is_run(sample, judge, first),
        is_run(sample, judge, second),
    ensures
        first == second,
{
    assert forall|i: int| 0 <= i < first.len() implies first[i] == second[i] by {
        assert(scored(sample, judge, i, first[i]));
        assert(scored(sample, judge, i, second[i]));
        let a = choose|fold: Fold<T>| #[trigger]
            fold.leaves_out(sample, i) && judge(fold, first[i]);
        let b = choose|fold: Fold<T>| #[trigger]
            fold.leaves_out(sample, i) && judge(fold, second[i]);
        assert(a.leaves_out(sample, i) && judge(a, first[i]));
        assert(b.leaves_out(sample, i) && judge(b, second[i]));
    }
    assert(first =~= second);
}

/// The outcomes of a run decide what is gathered from them: the error values,
/// or the fold that is reported as failed.
pub proof fn lemma_gathered_once<T>(
    outcomes: Seq<Option<T>>,
    first: Result<Seq<T>, FitError>,
    second: Result<Seq<T>, FitError>,
)
    requires
        gathered(outcomes, first),
        gathered(outcomes, second),
    ensures
        first == second,
{
    match (first, second) {
        (Ok(a), Ok(b)) => {
            assert forall|i: int| 0 <= i < a.len() implies a[i] == b[i] by {
                assert(outcomes[i] == Some(a[i]));
                assert(outcomes[i] == Some(b[i]));
            }
            assert(a =~= b);
        },
        (Ok(a), Err(e)) => {
            let k = e->fold as int;
            assert(outcomes[k] == Some(a[k]));
        },
        (Err(e), Ok(b)) => {
            let k = e->fold as int;
            assert(outcomes[k] == Some(b[k]));
        },
        (Err(d), Err(e)) => {
            let j = d->fold as int;
            let k = e->fold as int;
            if j < k {
                assert(outcomes[j] is Some);
            }
            if k < j {
                assert(outcomes[k] is Some);
            }
        },
    }
}

/// A cross-validation is decided by the sample and by how its folds are
/// scored: two runs end alike, with the same error values in the same order
/// or with the same fold reported as failed.
pub proof fn lemma_cross_validation_determined<T>(
    sample: Sample<T>,
    judge: spec_fn(Fold<T>, Option<T>) -> bool,
    first: Result<Seq<T>, FitError>,
    second: Result<Seq<T>, FitError>,
)
    requires
        judge_is_function(sample, judge),
        cross_validated(sample, judge, first),
        cross_validated(sample, judge, second),
    ensures
        first == second,
{
    let a = choose|outcomes: Seq<Option<T>>| #[trigger]
        is_run(sample, judge, outcomes) && gathered(outcomes, first);
    let b = choose|outcomes: Seq<Option<T>>| #[trigger]
        is_run(sample, judge, outcomes) && gathered(outcomes, second);
    lemma_runs_agree(sample, judge, a, b);
    lemma_gathered_once(a, first, second);
}

/// The PRESS statistic is decided by the sample, by how its folds are scored,
/// by the starting value and by the addition: two computations give the same
/// fold errors and the same sum, whatever the number of workers.
pub proof fn lemma_press_determined<T, A: Fn(T, T) -> T>(
    sample: Sample<T>,
    judge: spec_fn(Fold<T>, Option<T>) -> bool,
    zero: T,
    plus: A,
    first: (T, Seq<T>),
    second: (T, Seq<T>),
)
    requires
        judge_is_function(sample, judge),
        plus_is_function(plus),
        cross_validated(sample, judge, Ok(first.1)),
        summed_in_order(plus, zero, first.1, first.0),
        cross_validated(sample, judge, Ok(second.1)),
        summed_in_order(plus, zero, second.1, second.0),
    ensures
        first == second,
{
    lemma_cross_validation_determined(sample, judge, Ok(first.1), Ok(second.1));
    lemma_sums_agree(plus, zero, first.1, first.0, second.0);
}

} // verus!
