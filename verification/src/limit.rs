//! [`FrequencyLimit`]: the band of frequencies that a caller is interested in.
use crate::ieee::{
    greater_or_equal, less_or_equal, spec_greater_or_equal, spec_less_or_equal, ZERO,
};
use vstd::prelude::*;

verus! {

/// The frequencies that a caller is interested in. Bins outside the limit are
/// dropped before any further work is done on them, which saves time and
/// memory. Every bound is an encoded number and is inclusive.
///
/// The frequencies of a spectrum are multiples of its resolution, so a bound
/// is rarely hit exactly: the lowest frequency that `Min(1000.0)` keeps is
/// the first multiple of the resolution from 1000 Hz on.
#[derive(Debug, Copy, Clone)]
pub enum FrequencyLimit {
    /// Every frequency from 0 to the Nyquist frequency, which is half the
    /// sampling rate.
    All,
    /// The frequencies `x <= f`. Valid bounds are `0 <= x <= Nyquist`, which
    /// no NaN is.
    Min(u32),
    /// The frequencies `f <= x`. Valid bounds are `0 <= x <= Nyquist`, which
    /// no NaN is.
    Max(u32),
    /// The frequencies `min <= f <= max`. Each bound is valid as in
    /// [`FrequencyLimit::Min`] and [`FrequencyLimit::Max`], and the first
    /// must not be greater than the second.
    Range(u32, u32),
}

/// Why a [`FrequencyLimit`] is not valid.
#[derive(Debug, Copy, Clone)]
pub enum FrequencyLimitError {
    /// The bound is not 0 or above: it is below 0, and there are no negative
    /// frequencies, or it is a NaN.
    ValueBelowMinimum(u32),
    /// The bound is 0 or above, but not at or below the Nyquist frequency,
    /// the highest one that can be detected.
    ValueAboveNyquist(u32),
    /// The lower bound of a range is greater than its upper bound.
    InvalidRange(u32, u32),
}

/// What is wrong with one bound, if anything. A bound is in order where
/// `0 <= x` holds, which is looked at first, and `x <= max` too, with `max`
/// the highest detectable frequency. Neither holds of a NaN, so a bound that
/// is a NaN counts as one that is not 0 or above.
pub open spec fn bound_error(x: u32, max_detectable_frequency: u32) -> Option<FrequencyLimitError> {
    if !spec_greater_or_equal(x, ZERO) {
        Some(FrequencyLimitError::ValueBelowMinimum(x))
    } else if !spec_less_or_equal(x, max_detectable_frequency) {
        Some(FrequencyLimitError::ValueAboveNyquist(x))
    } else {
        None
    }
}

/// Checks one bound against 0 and the highest detectable frequency.
fn verify_bound(x: u32, max_detectable_frequency: u32) -> (r: Result<(), FrequencyLimitError>)
    ensures
        match bound_error(x, max_detectable_frequency) {
            Some(e) => r == Err::<(), FrequencyLimitError>(e),
            None => r is Ok,
        },
{
    if !greater_or_equal(x, ZERO) {
        Err(FrequencyLimitError::ValueBelowMinimum(x))
    } else if !less_or_equal(x, max_detectable_frequency) {
        Err(FrequencyLimitError::ValueAboveNyquist(x))
    } else {
        Ok(())
    }
}

impl FrequencyLimit {
    /// The lower bound, if the limit has one.
    pub open spec fn spec_maybe_min(&self) -> Option<u32> {
        match self {
            FrequencyLimit::Min(min) => Some(*min),
            FrequencyLimit::Range(min, _) => Some(*min),
            _ => None,
        }
    }

    /// The lower bound, if the limit has one.
    #[verifier::when_used_as_spec(spec_maybe_min)]
    pub fn maybe_min(&self) -> (r: Option<u32>)
        ensures
            r == self.spec_maybe_min(),
    {
        match self {
            FrequencyLimit::Min(min) => Some(*min),
            FrequencyLimit::Range(min, _) => Some(*min),
            _ => None,
        }
    }

    /// The upper bound, if the limit has one.
    pub open spec fn spec_maybe_max(&self) -> Option<u32> {
        match self {
            FrequencyLimit::Max(max) => Some(*max),
            FrequencyLimit::Range(_, max) => Some(*max),
            _ => None,
        }
    }

    /// The upper bound, if the limit has one.
    #[verifier::when_used_as_spec(spec_maybe_max)]
    pub fn maybe_max(&self) -> (r: Option<u32>)
        ensures
            r == self.spec_maybe_max(),
    {
        match self {
            FrequencyLimit::Max(max) => Some(*max),
            FrequencyLimit::Range(_, max) => Some(*max),
            _ => None,
        }
    }

    /// The lower bound of a limit that has one.
    pub fn min(&self) -> (r: u32)
        requires
            self.maybe_min() is Some,
        ensures
            Some(r) == self.maybe_min(),
    {
        match self {
            FrequencyLimit::Min(min) => *min,
            FrequencyLimit::Range(min, _) => *min,
            _ => unreached(),
        }
    }

    /// The upper bound of a limit that has one.
    pub fn max(&self) -> (r: u32)
        requires
            self.maybe_max() is Some,
        ensures
            Some(r) == self.maybe_max(),
    {
        match self {
            FrequencyLimit::Max(max) => *max,
            FrequencyLimit::Range(_, max) => *max,
            _ => unreached(),
        }
    }

    /// What [`FrequencyLimit::verify`] finds wrong with the limit, if
    /// anything. Of a range the lower bound is looked at first, then the
    /// upper bound, then their order: `min <= max` has to hold.
    pub open spec fn error(&self, max_detectable_frequency: u32) -> Option<FrequencyLimitError> {
        match self {
            FrequencyLimit::All => None,
            FrequencyLimit::Min(x) => bound_error(*x, max_detectable_frequency),
            FrequencyLimit::Max(x) => bound_error(*x, max_detectable_frequency),
            FrequencyLimit::Range(min, max) => {
                if bound_error(*min, max_detectable_frequency) is Some {
                    bound_error(*min, max_detectable_frequency)
                } else if bound_error(*max, max_detectable_frequency) is Some {
                    bound_error(*max, max_detectable_frequency)
                } else if !spec_less_or_equal(*min, *max) {
                    Some(FrequencyLimitError::InvalidRange(*min, *max))
                } else {
                    None
                }
            },
        }
    }

    /// Checks that every bound lies between 0 and the highest detectable
    /// frequency, both included, and that the bounds of a range are in
    /// order. A bound that is a NaN lies nowhere and is refused.
    pub fn verify(&self, max_detectable_frequency: u32) -> (r: Result<(), FrequencyLimitError>)
        ensures
            match self.error(max_detectable_frequency) {
                Some(e) => r == Err::<(), FrequencyLimitError>(e),
                None => r is Ok,
            },
    {
        match self {
            FrequencyLimit::All => Ok(()),
            FrequencyLimit::Min(x) => verify_bound(*x, max_detectable_frequency),
            FrequencyLimit::Max(x) => verify_bound(*x, max_detectable_frequency),
            FrequencyLimit::Range(min, max) => {
                match verify_bound(*min, max_detectable_frequency) {
                    Err(e) => Err(e),
                    Ok(()) => match verify_bound(*max, max_detectable_frequency) {
                        Err(e) => Err(e),
                        Ok(()) => {
                            if !less_or_equal(*min, *max) {
                                Err(FrequencyLimitError::InvalidRange(*min, *max))
                            } else {
                                Ok(())
                            }
                        },
                    },
                }
            },
        }
    }

    /// Whether the limit keeps a frequency: it is not below the lower bound
    /// and not above the upper bound, where there is one.
    pub open spec fn spec_keeps(&self, frequency: u32) -> bool {
        &&& match self.spec_maybe_min() {
            Some(min) => crate::ieee::spec_greater_or_equal(frequency, min),
            None => true,
        }
        &&& match self.spec_maybe_max() {
            Some(max) => crate::ieee::spec_less_or_equal(frequency, max),
            None => true,
        }
    }

    /// Whether the limit keeps a frequency: it is not below the lower bound
    /// and not above the upper bound, where there is one.
    #[verifier::when_used_as_spec(spec_keeps)]
    pub fn keeps(&self, frequency: u32) -> (r: bool)
        ensures
            r == self.spec_keeps(frequency),
    {
        let above = match self.maybe_min() {
            Some(min) => crate::ieee::greater_or_equal(frequency, min),
            None => true,
        };
        let below = match self.maybe_max() {
            Some(max) => crate::ieee::less_or_equal(frequency, max),
            None => true,
        };
        above && below
    }
}

/// A limit passes [`FrequencyLimit::verify`] where, and only where, every
/// bound that it has lies between 0 and the highest detectable frequency,
/// both included, and the bounds of a range are in order. So no bound of a
/// limit that passes is a NaN.
pub proof fn lemma_verified_limit(limit: FrequencyLimit, max_detectable_frequency: u32)
    ensures
        limit.error(max_detectable_frequency) is None <==> {
            &&& limit.spec_maybe_min() matches Some(min) ==> spec_less_or_equal(ZERO, min)
                && spec_less_or_equal(min, max_detectable_frequency)
            &&& limit.spec_maybe_max() matches Some(max) ==> spec_less_or_equal(ZERO, max)
                && spec_less_or_equal(max, max_detectable_frequency)
            &&& limit matches FrequencyLimit::Range(min, max) ==> spec_less_or_equal(min, max)
        },
        limit.error(max_detectable_frequency) is None ==> {
            &&& limit.spec_maybe_min() matches Some(min) ==> !crate::ieee::spec_is_nan(min)
            &&& limit.spec_maybe_max() matches Some(max) ==> !crate::ieee::spec_is_nan(max)
        },
{
}

} // verus!
