//! The fitted model: an immutable snapshot of the statistics of one fit.
//!
//! A model is put together from a validated design and a validated spread of
//! the response, so that none exists for input on which a statistic is
//! undefined.

use vstd::prelude::*;
use crate::design::Design;
use crate::error::FitError;
use crate::summary::{render, summary_text};

verus! {

/// The failure that a response without spread leads to, if any: a zero
/// variance is reported before a zero total sum of squares.
pub open spec fn spread_error(var_is_zero: bool, tss_is_zero: bool) -> Option<FitError> {
    if var_is_zero {
        Some(FitError::ZeroVariance)
    } else if tss_is_zero {
        Some(FitError::ZeroTotalSumOfSquares)
    } else {
        None
    }
}

/// The spread of the response about its mean: the total sum of squares and
/// the population variance, neither of which was found to be zero.
#[derive(Debug)]
pub struct Spread<T> {
    tss: T,
    var: T,
}

impl<T: Copy> Spread<T> {
    /// The total sum of squares.
    pub closed spec fn total(&self) -> T {
        self.tss
    }

    /// The population variance.
    pub closed spec fn variance(&self) -> T {
        self.var
    }

    /// Takes the total sum of squares and the population variance of the
    /// response, each with the finding whether it is zero. A zero in either
    /// is refused: the coefficients of determination divide by them.
    pub fn new(tss: T, tss_is_zero: bool, var: T, var_is_zero: bool) -> (r: Result<
        Spread<T>,
        FitError,
    >)
        ensures
            match spread_error(var_is_zero, tss_is_zero) {
                Some(e) => r matches Err(found) && found == e,
                None => r matches Ok(spread) && spread.total() == tss && spread.variance() == var,
            },
    {
        if var_is_zero {
            Err(FitError::ZeroVariance)
        } else if tss_is_zero {
            Err(FitError::ZeroTotalSumOfSquares)
        } else {
            Ok(Spread { tss, var })
        }
    }

    /// The total sum of squares.
    pub fn tss(&self) -> (tss: T)
        ensures
            tss == self.total(),
    {
        self.tss
    }

    /// The population variance.
    pub fn var(&self) -> (var: T)
        ensures
            var == self.variance(),
    {
        self.var
    }
}

/// The statistics of a fit.
#[derive(Debug)]
pub struct Statistics<T> {
    /// The total sum of squares.
    pub tss: T,
    /// The residual sum of squares of the full-sample fit.
    pub rss: T,
    /// The sum of the squared leave-one-out prediction errors.
    pub press: T,
    /// The coefficient of determination.
    pub r2: T,
    /// The coefficient of determination, adjusted for the parameter count.
    pub r2_adjusted: T,
    /// The predicted coefficient of determination.
    pub r2_predicted: T,
    /// The population variance of the response.
    pub var: T,
}

/// A fitted ordinary-least-squares model.
#[derive(Debug)]
pub struct OLS<T> {
    size_samples: usize,
    size_params: usize,
    stats: Statistics<T>,
}

impl<T> OLS<T> {
    /// There are more observations than parameters, and at least one
    /// parameter.
    #[verifier::type_invariant]
    pub closed spec fn wf(&self) -> bool {
        self.size_samples > self.size_params >= 1
    }

    /// The number of observations.
    pub closed spec fn samples(&self) -> nat {
        self.size_samples as nat
    }

    /// The number of parameters.
    pub closed spec fn params(&self) -> nat {
        self.size_params as nat
    }

    /// The statistics that the model was made with.
    pub closed spec fn statistics(&self) -> Statistics<T> {
        self.stats
    }

    /// Models that hold the same counts and the same statistics are the same
    /// model.
    pub proof fn lemma_same(self, other: OLS<T>)
        requires
            self.samples() == other.samples(),
            self.params() == other.params(),
            self.statistics() == other.statistics(),
        ensures
            self == other,
    {
    }
}

impl<T: Copy> OLS<T> {
    /// Puts the model together: the counts of `design`, the total sum of
    /// squares and the variance of `spread`, and the other statistics as
    /// given.
    pub fn from_parts(
        design: &Design<T>,
        spread: &Spread<T>,
        rss: T,
        press: T,
        r2: T,
        r2_adjusted: T,
        r2_predicted: T,
    ) -> (model: OLS<T>)
        ensures
            model.wf(),
            model.samples() == design@.samples(),
            model.params() == design@.params,
            model.statistics() == (Statistics {
                tss: spread.total(),
                rss,
                press,
                r2,
                r2_adjusted,
                r2_predicted,
                var: spread.variance(),
            }),
    {
        let size_samples: usize = design.size_samples();
        let size_params: usize = design.size_params();
        OLS {
            size_samples,
            size_params,
            stats: Statistics {
                tss: spread.tss(),
                rss,
                press,
                r2,
                r2_adjusted,
                r2_predicted,
                var: spread.var(),
            },
        }
    }

    /// The number of observations; more than the parameters.
    pub fn size_samples(&self) -> (n: usize)
        ensures
            n == self.samples(),
            n > self.params(),
    {
        proof {
            use_type_invariant(self);
        }
        self.size_samples
    }

    /// The number of parameters; at least one.
    pub fn size_params(&self) -> (p: usize)
        ensures
            p == self.params(),
            p >= 1,
    {
        proof {
            use_type_invariant(self);
        }
        self.size_params
    }

    /// The total sum of squares.
    pub fn tss(&self) -> (value: T)
        ensures
            value == self.statistics().tss,
    {
        self.stats.tss
    }

    /// The residual sum of squares.
    pub fn rss(&self) -> (value: T)
        ensures
            value == self.statistics().rss,
    {
        self.stats.rss
    }

    /// The sum of the squared leave-one-out prediction errors.
    pub fn press(&self) -> (value: T)
        ensures
            value == self.statistics().press,
    {
        self.stats.press
    }

    /// The coefficient of determination.
    pub fn r2(&self) -> (value: T)
        ensures
            value == self.statistics().r2,
    {
        self.stats.r2
    }

    /// The adjusted coefficient of determination.
    pub fn r2_adjusted(&self) -> (value: T)
        ensures
            value == self.statistics().r2_adjusted,
    {
        self.stats.r2_adjusted
    }

    /// The predicted coefficient of determination.
    pub fn r2_predicted(&self) -> (value: T)
        ensures
            value == self.statistics().r2_predicted,
    {
        self.stats.r2_predicted
    }

    /// The population variance of the response.
    pub fn var(&self) -> (value: T)
        ensures
            value == self.statistics().var,
    {
        self.stats.var
    }

    /// The summary table of the model. The six statistics come as text, each
    /// formatted from the value that the accessor of the same name returns.
    pub fn summary(
        &self,
        tss: &str,
        r2: &str,
        rss: &str,
        r2_adjusted: &str,
        press: &str,
        r2_predicted: &str,
    ) -> (text: String)
        ensures
            text@ == summary_text(
                self.samples(),
                self.params(),
                tss@,
                r2@,
                rss@,
                r2_adjusted@,
                press@,
                r2_predicted@,
            ),
    {
        render(self.size_samples, self.size_params, tss, r2, rss, r2_adjusted, press, r2_predicted)
    }
}

} // verus!
