//! The validated inputs of a fit: a design matrix and its responses.
//!
//! A `Design` exists only for shapes on which every statistic is defined:
//! as many responses as rows, and more rows than parameters, of which there is
//! at least one.

use vstd::prelude::*;
use crate::error::{ErrorKind, FitError};
use crate::matrix::{with_column, Matrix};

verus! {

/// The number of parameters: the predictor columns, and one more for the
/// intercept column where there is one.
pub open spec fn param_count(columns: nat, constant: bool) -> nat {
    if constant {
        columns + 1
    } else {
        columns
    }
}

/// The failure that the given shapes lead to, if any. The checks come in this
/// order: the responses must be as many as the rows; the rows may not be fewer
/// than the parameters, nor exactly as many; and there must be a parameter.
pub open spec fn dimension_error(
    rows: usize,
    columns: usize,
    responses: usize,
    constant: bool,
) -> Option<FitError> {
    let params = param_count(columns as nat, constant);
    if rows != responses {
        Some(FitError::ShapeMismatch { rows, responses })
    } else if rows < params {
        Some(FitError::Underdetermined { rows, columns, constant })
    } else if rows == params {
        Some(FitError::NoResidualFreedom { rows })
    } else if params == 0 {
        Some(FitError::NoPredictors { rows })
    } else {
        None
    }
}

/// The outcome of the shape check: the failure that the shapes lead to, or
/// nothing to object to.
pub open spec fn dimension_check(
    rows: usize,
    columns: usize,
    responses: usize,
    constant: bool,
) -> Result<(), FitError> {
    match dimension_error(rows, columns, responses, constant) {
        Some(e) => Err(e),
        None => Ok(()),
    }
}

/// The rows of the design matrix built from `rows`: with the intercept column
/// appended where `constant` holds its value, unchanged otherwise.
pub open spec fn design_rows<T>(rows: Seq<Seq<T>>, constant: Option<T>) -> Seq<Seq<T>> {
    match constant {
        Some(value) => with_column(rows, value),
        None => rows,
    }
}

/// The model of a design: the rows of the design matrix (the intercept column
/// included), the responses, and the number of parameters.
pub struct Sample<T> {
    /// The rows of the design matrix.
    pub rows: Seq<Seq<T>>,
    /// The responses, one per row.
    pub responses: Seq<T>,
    /// The number of parameters, which is the width of the design matrix.
    pub params: nat,
}

impl<T> Sample<T> {
    /// The number of observations.
    pub open spec fn samples(self) -> nat {
        self.rows.len()
    }

    /// There is one response per row, every row is as wide as there are
    /// parameters, and the rows exceed the parameters, of which there is at
    /// least one.
    pub open spec fn wf(self) -> bool {
        &&& self.responses.len() == self.rows.len()
        &&& self.rows.len() > self.params >= 1
        &&& forall|i: int|
            0 <= i < self.rows.len() ==> (#[trigger] self.rows[i]).len() == self.params
    }
}

/// The sample that is made of `columns` predictor columns in `rows` and of
/// `responses`, with an intercept column of the value that `constant` holds,
/// if it holds one.
pub open spec fn sample_of<T>(
    rows: Seq<Seq<T>>,
    columns: nat,
    responses: Seq<T>,
    constant: Option<T>,
) -> Sample<T> {
    Sample {
        rows: design_rows(rows, constant),
        responses,
        params: param_count(columns, constant is Some),
    }
}

/// With no predictor column and an intercept, the design matrix is the
/// intercept column alone: one parameter, and every row holds the one value.
pub proof fn lemma_intercept_only_sample<T>(rows: Seq<Seq<T>>, responses: Seq<T>, one: T)
    requires
        forall|i: int| 0 <= i < rows.len() ==> (#[trigger] rows[i]).len() == 0,
    ensures
        sample_of(rows, 0, responses, Some(one)).params == 1,
        sample_of(rows, 0, responses, Some(one)).samples() == rows.len(),
        forall|i: int|
            0 <= i < rows.len() ==> #[trigger] sample_of(rows, 0, responses, Some(one)).rows[i]
                == seq![one],
{
    assert forall|i: int| 0 <= i < rows.len() implies #[trigger] sample_of(
        rows,
        0,
        responses,
        Some(one),
    ).rows[i] == seq![one] by {
        assert(rows[i].push(one) =~= seq![one]);
    }
}

/// Shapes are accepted exactly when the responses are as many as the rows and
/// the rows exceed the parameters, of which there is at least one. Accepted
/// shapes have at least two rows, so that every leave-one-out training set
/// keeps at least as many rows as there are parameters.
pub proof fn lemma_accepted_dimensions(
    rows: usize,
    columns: usize,
    responses: usize,
    constant: bool,
)
    ensures
        (dimension_error(rows, columns, responses, constant) is None) <==> (rows == responses
            && rows > param_count(columns as nat, constant) >= 1),
        (dimension_error(rows, columns, responses, constant) is None) ==> (rows >= 2 && rows - 1
            >= param_count(columns as nat, constant)),
{
}

/// With exactly as many observations as parameters the fit is refused as
/// degenerate: the adjusted statistic would divide by zero.
pub proof fn lemma_square_design_is_degenerate(rows: usize, columns: usize, constant: bool)
    requires
        rows == param_count(columns as nat, constant),
    ensures
        (dimension_error(rows, columns, rows, constant) matches Some(e) && e.spec_kind()
            == ErrorKind::DegenerateInput),
{
}

/// Checks the shapes of a fit: `rows` observations of `columns` predictors,
/// `responses` responses, and an intercept column if `constant`.
pub fn check_dimensions(rows: usize, columns: usize, responses: usize, constant: bool) -> (r:
    Result<(), FitError>)
    ensures
        r == dimension_check(rows, columns, responses, constant),
{
    if rows != responses {
        return Err(FitError::ShapeMismatch { rows, responses });
    }
    // the rows to spare are compared with the intercept's share: a sum of
    // columns and intercept might not fit the machine word
    if rows < columns {
        return Err(FitError::Underdetermined { rows, columns, constant });
    }
    let spare: usize = rows - columns;
    if constant {
        if spare == 0 {
            Err(FitError::Underdetermined { rows, columns, constant })
        } else if spare == 1 {
            Err(FitError::NoResidualFreedom { rows })
        } else {
            Ok(())
        }
    } else {
        if spare == 0 {
            Err(FitError::NoResidualFreedom { rows })
        } else if columns == 0 {
            Err(FitError::NoPredictors { rows })
        } else {
            Ok(())
        }
    }
}

/// A design matrix with its responses, of accepted shape.
#[derive(Debug)]
pub struct Design<T> {
    exog: Matrix<T>,
    endog: Vec<T>,
}

impl<T> View for Design<T> {
    type V = Sample<T>;

    /// What a fit sees of the design.
    closed spec fn view(&self) -> Sample<T> {
        Sample { rows: self.exog@, responses: self.endog@, params: self.exog.width() }
    }
}

impl<T> Design<T> {
    /// The matrix is well formed, there is one response per row, and the rows
    /// exceed the parameters, of which there is at least one.
    #[verifier::type_invariant]
    pub closed spec fn wf(&self) -> bool {
        &&& self.exog.wf()
        &&& self.endog@.len() == self.exog@.len()
        &&& self.exog@.len() > self.exog.width() >= 1
    }
}

impl<T: Copy> Design<T> {
    /// The model of a well-formed design is well formed.
    pub proof fn lemma_shape(&self)
        requires
            self.wf(),
        ensures
            self@.wf(),
            self@.samples() >= 2,
    {
        self.exog.lemma_rectangular();
    }

    /// Builds the design from the predictors and the responses. With
    /// `constant` holding a value, an intercept column of that value is
    /// appended (the caller passes its scalar's one). The shapes are checked
    /// first, before anything is built.
    pub fn new(exog: Matrix<T>, endog: Vec<T>, constant: Option<T>) -> (r: Result<
        Design<T>,
        FitError,
    >)
        ensures
            match dimension_error(
                exog@.len() as usize,
                exog.width() as usize,
                endog@.len() as usize,
                constant is Some,
            ) {
                Some(e) => r matches Err(found) && found == e,
                None => r matches Ok(design) && design@.wf() && design@ == sample_of(
                    exog@,
                    exog.width(),
                    endog@,
                    constant,
                ),
            },
    {
        proof {
            use_type_invariant(&exog);
        }
        match check_dimensions(exog.nrows(), exog.ncols(), endog.len(), constant.is_some()) {
            Err(e) => Err(e),
            Ok(()) => {
                let exog = match constant {
                    Some(value) => exog.with_column(value),
                    None => exog,
                };
                let design = Design { exog, endog };
                proof {
                    design.lemma_shape();
                }
                Ok(design)
            },
        }
    }

    /// The number of observations.
    pub fn size_samples(&self) -> (n: usize)
        ensures
            self@.wf(),
            n == self@.samples(),
            n >= 2,
    {
        proof {
            use_type_invariant(self);
            self.lemma_shape();
        }
        self.exog.nrows()
    }

    /// The number of parameters.
    pub fn size_params(&self) -> (p: usize)
        ensures
            self@.wf(),
            p == self@.params,
    {
        proof {
            use_type_invariant(self);
            self.lemma_shape();
        }
        self.exog.ncols()
    }

    /// The residual degrees of freedom: the observations less the parameters.
    /// Never zero.
    pub fn df_residual(&self) -> (df: usize)
        ensures
            df == self@.samples() - self@.params,
            df >= 1,
    {
        proof {
            use_type_invariant(self);
            self.lemma_shape();
        }
        self.exog.nrows() - self.exog.ncols()
    }

    /// The total degrees of freedom: the observations less one. Never zero.
    pub fn df_total(&self) -> (df: usize)
        ensures
            df == self@.samples() - 1,
            df >= 1,
    {
        proof {
            use_type_invariant(self);
            self.lemma_shape();
        }
        self.exog.nrows() - 1
    }

    /// The design matrix, the intercept column included.
    pub fn exog(&self) -> (x: &Matrix<T>)
        ensures
            self@.wf(),
            x.wf(),
            x@ == self@.rows,
            x.width() == self@.params,
    {
        proof {
            use_type_invariant(self);
            self.lemma_shape();
        }
        &self.exog
    }

    /// The responses.
    pub fn endog(&self) -> (y: &Vec<T>)
        ensures
            self@.wf(),
            y@ == self@.responses,
    {
        proof {
            use_type_invariant(self);
            self.lemma_shape();
        }
        &self.endog
    }
}

} // verus!
