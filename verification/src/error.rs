//! The errors of an analysis. Nearly all of them come from input that the
//! analysis refuses before it computes anything.
use crate::limit::FrequencyLimitError;
use vstd::prelude::*;

verus! {

/// Why an analysis failed.
#[derive(Debug, Copy, Clone)]
pub enum SpectrumAnalyzerError {
    /// There are fewer than two samples.
    TooFewSamples,
    /// A sample is a NaN.
    NaNValuesNotSupported,
    /// A sample is infinite.
    InfinityValuesNotSupported,
    /// The frequency limit is not valid.
    InvalidFrequencyLimit(FrequencyLimitError),
    /// The number of samples is not a power of two.
    SamplesLengthNotAPowerOfTwo,
    /// The scaling function turned the first number into the second, which
    /// is a NaN or infinite.
    ScalingError(u32, u32),
}

impl SpectrumAnalyzerError {
    /// The error that lies behind this one.
    pub open spec fn spec_source(&self) -> Option<FrequencyLimitError> {
        match self {
            SpectrumAnalyzerError::InvalidFrequencyLimit(e) => Some(*e),
            _ => None,
        }
    }

    /// The error that lies behind this one: that of the frequency limit, if
    /// the limit was refused.
    #[verifier::when_used_as_spec(spec_source)]
    pub fn source(&self) -> (r: Option<FrequencyLimitError>)
        ensures
            r == self.spec_source(),
    {
        match self {
            SpectrumAnalyzerError::InvalidFrequencyLimit(e) => Some(*e),
            _ => None,
        }
    }

    /// The text of [`SpectrumAnalyzerError::message`].
    pub open spec fn spec_message(&self) -> Seq<char> {
        match self {
            SpectrumAnalyzerError::TooFewSamples => "Too few samples!"@,
            SpectrumAnalyzerError::NaNValuesNotSupported => "NaN values are not supported!"@,
            SpectrumAnalyzerError::InfinityValuesNotSupported => "Infinity values are not supported!"@,
            SpectrumAnalyzerError::InvalidFrequencyLimit(_) => "Invalid frequency limit: "@,
            SpectrumAnalyzerError::SamplesLengthNotAPowerOfTwo => "Samples length must be a power of two!"@,
            SpectrumAnalyzerError::ScalingError(_, _) => "Scaling error: "@,
        }
    }

    /// What the error says, up to the numbers that it carries: whoever
    /// prints the error adds the limit's error, or the two numbers with `->`
    /// between them.
    pub fn message(&self) -> (r: &'static str)
        ensures
            r@ == self.spec_message(),
    {
        match self {
            SpectrumAnalyzerError::TooFewSamples => "Too few samples!",
            SpectrumAnalyzerError::NaNValuesNotSupported => "NaN values are not supported!",
            SpectrumAnalyzerError::InfinityValuesNotSupported => "Infinity values are not supported!",
            SpectrumAnalyzerError::InvalidFrequencyLimit(_) => "Invalid frequency limit: ",
            SpectrumAnalyzerError::SamplesLengthNotAPowerOfTwo => "Samples length must be a power of two!",
            SpectrumAnalyzerError::ScalingError(_, _) => "Scaling error: ",
        }
    }
}

} // verus!
