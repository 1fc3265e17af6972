//! The choice of the distribution from which a map's initial weights are drawn.

use vstd::prelude::*;
use crate::error::SomError;
use crate::scalar::{less, less_than, ZERO_BITS};

verus! {

/// The families of distributions from which initial weights can be drawn.
#[derive(Debug, Clone, Copy, PartialEq, Eq)]
pub enum DistType {
    Normal,
    Uniform,
    LogNormal,
}

/// A distribution with checked parameters, each a binary64 pattern.
#[derive(Debug, Clone, Copy, PartialEq, Eq)]
pub enum Sampling {
    /// Independent uniform samples from the half-open unit interval.
    Unit,
    /// Uniform samples from `low` up to, but not including, `high`.
    Uniform { low: u64, high: u64 },
    /// Normal samples around `mean` with standard deviation `std_dev`.
    Normal { mean: u64, std_dev: u64 },
    /// Samples whose logarithm is normal around `mean` with standard deviation `std_dev`.
    LogNormal { mean: u64, std_dev: u64 },
}

/// What a requested family and its pair of parameters come to.
///
/// Without parameters, or without a family, the unit interval is sampled. The
/// pair is `(low, high)` for a uniform distribution and `(mean, std_dev)` for
/// the others. A uniform range must have `low < high`; a standard deviation
/// must be greater than zero. A NaN satisfies neither.
pub open spec fn planned(distribution: Option<DistType>, rand_range: Option<(u64, u64)>) -> Result<
    Sampling,
    SomError,
> {
    match (rand_range, distribution) {
        (Some(pair), Some(DistType::Uniform)) => if less(pair.0, pair.1) {
            Ok(Sampling::Uniform { low: pair.0, high: pair.1 })
        } else {
            Err(SomError::InvalidParameter)
        },
        (Some(pair), Some(DistType::Normal)) => if less(ZERO_BITS, pair.1) {
            Ok(Sampling::Normal { mean: pair.0, std_dev: pair.1 })
        } else {
            Err(SomError::InvalidParameter)
        },
        (Some(pair), Some(DistType::LogNormal)) => if less(ZERO_BITS, pair.1) {
            Ok(Sampling::LogNormal { mean: pair.0, std_dev: pair.1 })
        } else {
            Err(SomError::InvalidParameter)
        },
        _ => Ok(Sampling::Unit),
    }
}

impl Sampling {
    /// Checks the parameters of the requested distribution and settles what is
    /// to be sampled.
    pub fn plan(distribution: Option<DistType>, rand_range: Option<(u64, u64)>) -> (r: Result<
        Sampling,
        SomError,
    >)
        ensures
            r == planned(distribution, rand_range),
    {
        let pair: (u64, u64) = match rand_range {
            Some(pair) => pair,
            None => {
                return Ok(Sampling::Unit);
            },
        };
        match distribution {
            Some(DistType::Uniform) => {
                if less_than(pair.0, pair.1) {
                    Ok(Sampling::Uniform { low: pair.0, high: pair.1 })
                } else {
                    Err(SomError::InvalidParameter)
                }
            },
            Some(DistType::Normal) => {
                if less_than(ZERO_BITS, pair.1) {
                    Ok(Sampling::Normal { mean: pair.0, std_dev: pair.1 })
                } else {
                    Err(SomError::InvalidParameter)
                }
            },
            Some(DistType::LogNormal) => {
                if less_than(ZERO_BITS, pair.1) {
                    Ok(Sampling::LogNormal { mean: pair.0, std_dev: pair.1 })
                } else {
                    Err(SomError::InvalidParameter)
                }
            },
            None => Ok(Sampling::Unit),
        }
    }
}

} // verus!
