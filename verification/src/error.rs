//! The failures of a fit, and the three families they fall into.

use vstd::prelude::*;

verus! {

/// The family a failure belongs to.
#[derive(Clone, Copy, Debug, PartialEq, Eq, Structural)]
pub enum ErrorKind {
    /// The shapes of the inputs do not fit together.
    ShapeMismatch,
    /// The shapes fit, but a statistic would divide by zero.
    DegenerateInput,
    /// A least-squares solve produced no solution.
    NumericalFailure,
}

/// Why a fit was refused. Each variant carries the values that failed the check.
#[derive(Clone, Copy, Debug, PartialEq, Eq, Structural)]
pub enum FitError {
    /// The design matrix has `rows` rows but there are `responses` responses.
    ShapeMismatch { rows: usize, responses: usize },
    /// There are fewer observations than parameters. `columns` counts the
    /// predictor columns handed in; `constant` tells whether an intercept
    /// column comes on top of them.
    Underdetermined { rows: usize, columns: usize, constant: bool },
    /// There are exactly as many observations as parameters, so no residual
    /// degree of freedom is left for the adjusted statistic.
    NoResidualFreedom { rows: usize },
    /// The design has observations but not a single column.
    NoPredictors { rows: usize },
    /// The variance of the response is zero.
    ZeroVariance,
    /// The total sum of squares is zero.
    ZeroTotalSumOfSquares,
    /// The full-sample solve failed.
    SolveFailed,
    /// The solve of the fold that leaves out observation `fold` failed.
    FoldFailed { fold: usize },
}

impl FitError {
    /// The family of this failure.
    pub open spec fn spec_kind(self) -> ErrorKind {
        match self {
            FitError::ShapeMismatch { .. } => ErrorKind::ShapeMismatch,
            FitError::Underdetermined { .. } => ErrorKind::ShapeMismatch,
            FitError::NoPredictors { .. } => ErrorKind::ShapeMismatch,
            FitError::NoResidualFreedom { .. } => ErrorKind::DegenerateInput,
            FitError::ZeroVariance => ErrorKind::DegenerateInput,
            FitError::ZeroTotalSumOfSquares => ErrorKind::DegenerateInput,
            FitError::SolveFailed => ErrorKind::NumericalFailure,
            FitError::FoldFailed { .. } => ErrorKind::NumericalFailure,
        }
    }

    /// The family of this failure.
    #[verifier::when_used_as_spec(spec_kind)]
    pub fn kind(self) -> (k: ErrorKind)
        ensures
            k == self.spec_kind(),
    {
        match self {
            FitError::ShapeMismatch { .. } => ErrorKind::ShapeMismatch,
            FitError::Underdetermined { .. } => ErrorKind::ShapeMismatch,
            FitError::NoPredictors { .. } => ErrorKind::ShapeMismatch,
            FitError::NoResidualFreedom { .. } => ErrorKind::DegenerateInput,
            FitError::ZeroVariance => ErrorKind::DegenerateInput,
            FitError::ZeroTotalSumOfSquares => ErrorKind::DegenerateInput,
            FitError::SolveFailed => ErrorKind::NumericalFailure,
            FitError::FoldFailed { .. } => ErrorKind::NumericalFailure,
        }
    }
}

} // verus!
