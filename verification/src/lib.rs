//! Ordinary-least-squares regression diagnostics, generic over the scalar
//! type: the sums of squares of a fit, its coefficients of determination, and
//! the PRESS statistic of its leave-one-out cross-validation.
//!
//! The crate does no arithmetic of its own. The caller hands in its scalar
//! type's solver and formulas as one bundle, [`numerics::Numerics`]; the crate
//! decides which inputs are refused, what is solved and in which order, how
//! the folds are cut and where their results go, in which order sums are
//! taken, and how the report is laid out. [`model::OLS::new`] is the way in.

pub mod error;
pub mod matrix;
pub mod design;
pub mod sums;
pub mod loocv;
pub mod solve;
pub mod numerics;
pub mod summary;
pub mod model;
pub mod fit;
