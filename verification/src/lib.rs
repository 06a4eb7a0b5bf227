//! The frequency spectrum of a block of samples, and what can be asked of it.
//!
//! [`samples_fft_to_spectrum`] checks the samples, has them transformed, and
//! turns the bins of the transform into a [`FrequencySpectrum`]: frequencies
//! with their magnitudes, statistics of the magnitudes, and lookups by
//! frequency.
//!
//! Numbers are single-precision IEEE-754 numbers, and the library holds each
//! of them by its encoding, a `u32`: see [`ieee`]. It compares and
//! classifies them itself. What rounds is computed by the caller's
//! [`arithmetic::Arithmetic`], and the transform is the caller's too.

pub mod arithmetic;
pub mod error;
pub mod fft;
pub mod frequency;
pub mod ieee;
pub mod limit;
pub mod log_spectrum;
pub mod scaling;
pub mod spectrum;
pub mod util;
pub mod windows;

pub use crate::frequency::{Frequency, FrequencyValue};
pub use crate::limit::{FrequencyLimit, FrequencyLimitError};
pub use crate::spectrum::FrequencySpectrum;

use crate::arithmetic::{Arithmetic, Operation};
use crate::error::SpectrumAnalyzerError;
use crate::fft::{is_power_of_two, unpacked, Complex32, FftImpl};
use crate::frequency::OrderableF32;
use crate::ieee::{is_infinite, is_nan, spec_is_infinite, spec_is_nan, TWO, ZERO};
use crate::scaling::SpectrumDataStats;
use crate::spectrum::SpectrumView;
use vstd::arithmetic::power2::is_pow2;
use vstd::prelude::*;

verus! {

/// The distance between two neighbouring frequencies of a spectrum: the
/// sampling rate over the number of samples.
pub open spec fn spec_fft_calc_frequency_resolution<A: Fn(Operation) -> u32>(
    sampling_rate: u32,
    samples_len: u32,
    arith: &Arithmetic<A>,
) -> u32 {
    arith.over(arith.from_int(sampling_rate as u64), arith.from_int(samples_len as u64))
}

/// The distance in Hertz between two neighbouring frequencies of a
/// spectrum: the sampling rate over the number of samples.
#[verifier::when_used_as_spec(spec_fft_calc_frequency_resolution)]
pub fn fft_calc_frequency_resolution<A: Fn(Operation) -> u32>(
    sampling_rate: u32,
    samples_len: u32,
    arith: &Arithmetic<A>,
) -> (r: u32)
    requires
        arith.wf(),
    ensures
        r == spec_fft_calc_frequency_resolution(sampling_rate, samples_len, arith),
{
    arith.over(arith.from_int(sampling_rate as u64), arith.from_int(samples_len as u64))
}

/// The magnitude of a complex number: `sqrt(re * re + im * im)`.
pub open spec fn spec_complex_to_magnitude<A: Fn(Operation) -> u32>(
    val: &Complex32,
    arith: &Arithmetic<A>,
) -> u32 {
    arith.sqrt(arith.plus(arith.times(val.re, val.re), arith.times(val.im, val.im)))
}

/// The magnitude of a complex number: `sqrt(re * re + im * im)`.
#[verifier::when_used_as_spec(spec_complex_to_magnitude)]
pub fn complex_to_magnitude<A: Fn(Operation) -> u32>(val: &Complex32, arith: &Arithmetic<A>) -> (r:
    u32)
    requires
        arith.wf(),
    ensures
        r == spec_complex_to_magnitude(val, arith),
{
    let sum = arith.plus(arith.times(val.re, val.re), arith.times(val.im, val.im));
    arith.sqrt(sum)
}

/// The frequency of the bin at `index`: the index times the frequency
/// resolution.
pub open spec fn bin_frequency<A: Fn(Operation) -> u32>(
    index: int,
    frequency_resolution: u32,
    arith: &Arithmetic<A>,
) -> u32 {
    arith.times(arith.from_int(index as u64), frequency_resolution)
}

/// The highest frequency that a sampling rate lets one detect, the Nyquist
/// frequency: half the sampling rate.
pub open spec fn max_detectable_frequency<A: Fn(Operation) -> u32>(
    sampling_rate: u32,
    arith: &Arithmetic<A>,
) -> u32 {
    arith.over(arith.from_int(sampling_rate as u64), TWO)
}

/// The entries that a spectrum gets from the bins of a transform: for each
/// bin whose frequency the limit keeps, in the order of the bins, the
/// frequency of the bin and the magnitude of what the bin holds.
pub open spec fn spectrum_entries<A: Fn(Operation) -> u32>(
    bins: Seq<Complex32>,
    frequency_resolution: u32,
    frequency_limit: FrequencyLimit,
    arith: &Arithmetic<A>,
) -> Seq<(Frequency, FrequencyValue)>
    decreases bins.len(),
{
    if bins.len() == 0 {
        Seq::empty()
    } else {
        let before = spectrum_entries(bins.drop_last(), frequency_resolution, frequency_limit, arith);
        let frequency = bin_frequency(bins.len() - 1, frequency_resolution, arith);
        if frequency_limit.keeps(frequency) {
            before.push(
                (
                    OrderableF32 { bits: frequency },
                    OrderableF32 { bits: spec_complex_to_magnitude(&bins.last(), arith) },
                ),
            )
        } else {
            before
        }
    }
}

/// The number of bins, out of the first `bins` ones, whose frequency the
/// limit keeps.
pub open spec fn spec_retained_bins<A: Fn(Operation) -> u32>(
    bins: nat,
    frequency_resolution: u32,
    frequency_limit: FrequencyLimit,
    arith: &Arithmetic<A>,
) -> nat
    decreases bins,
{
    if bins == 0 {
        0
    } else {
        let before = spec_retained_bins(
            (bins - 1) as nat,
            frequency_resolution,
            frequency_limit,
            arith,
        );
        if frequency_limit.keeps(bin_frequency(bins - 1, frequency_resolution, arith)) {
            before + 1
        } else {
            before
        }
    }
}

/// The number of bins, out of the first `bins` ones, whose frequency the
/// limit keeps: the number of entries that a spectrum of them gets. A
/// spectrum takes two entries at least, so this is what a caller of
/// [`samples_fft_to_spectrum`] looks at first where the limit is narrow.
pub fn retained_bins<A: Fn(Operation) -> u32>(
    bins: usize,
    frequency_resolution: u32,
    frequency_limit: FrequencyLimit,
    arith: &Arithmetic<A>,
) -> (r: usize)
    requires
        arith.wf(),
    ensures
        r == spec_retained_bins(bins as nat, frequency_resolution, frequency_limit, arith),
{
    let mut count: usize = 0;
    let mut i: usize = 0;
    while i < bins
        invariant
            arith.wf(),
            i <= bins,
            count <= i,
            count == spec_retained_bins(i as nat, frequency_resolution, frequency_limit, arith),
        decreases bins - i,
    {
        let frequency = arith.times(arith.from_int(i as u64), frequency_resolution);
        if frequency_limit.keeps(frequency) {
            count += 1;
        }
        i += 1;
    }
    count
}

/// A spectrum has as many entries as the limit keeps bins.
pub proof fn lemma_spectrum_entries_len<A: Fn(Operation) -> u32>(
    bins: Seq<Complex32>,
    frequency_resolution: u32,
    frequency_limit: FrequencyLimit,
    arith: &Arithmetic<A>,
)
    ensures
        spectrum_entries(bins, frequency_resolution, frequency_limit, arith).len()
            == spec_retained_bins(bins.len(), frequency_resolution, frequency_limit, arith),
    decreases bins.len(),
{
    if bins.len() > 0 {
        lemma_spectrum_entries_len(bins.drop_last(), frequency_resolution, frequency_limit, arith);
    }
}

/// Every entry of a spectrum has a frequency that the limit keeps: not below
/// the lower bound and not above the upper bound, where there is one.
pub proof fn lemma_spectrum_entries_within_limit<A: Fn(Operation) -> u32>(
    bins: Seq<Complex32>,
    frequency_resolution: u32,
    frequency_limit: FrequencyLimit,
    arith: &Arithmetic<A>,
)
    ensures
        forall|i: int|
            0 <= i < spectrum_entries(bins, frequency_resolution, frequency_limit, arith).len()
                ==> frequency_limit.keeps(
                (#[trigger] spectrum_entries(
                    bins,
                    frequency_resolution,
                    frequency_limit,
                    arith,
                )[i]).0.bits,
            ),
    decreases bins.len(),
{
    let entries = spectrum_entries(bins, frequency_resolution, frequency_limit, arith);
    if bins.len() > 0 {
        let before = spectrum_entries(
            bins.drop_last(),
            frequency_resolution,
            frequency_limit,
            arith,
        );
        lemma_spectrum_entries_within_limit(
            bins.drop_last(),
            frequency_resolution,
            frequency_limit,
            arith,
        );
        assert forall|i: int| 0 <= i < entries.len() implies frequency_limit.keeps(
            (#[trigger] entries[i]).0.bits,
        ) by {
            if i < before.len() {
                assert(entries[i] == before[i]);
            }
        }
    }
}

/// Without a limit a spectrum has one entry for each bin: the entry at `i`
/// holds the frequency of the bin at `i`, which is `i` times the frequency
/// resolution, and the magnitude of what that bin holds.
///
/// So the spectrum of `N` samples, which is made of `N / 2 + 1` bins, has
/// `N / 2 + 1` entries. The first of them is at 0 times the frequency
/// resolution, and the last at `N / 2` times the frequency resolution.
pub proof fn lemma_spectrum_without_limit<A: Fn(Operation) -> u32>(
    bins: Seq<Complex32>,
    frequency_resolution: u32,
    arith: &Arithmetic<A>,
)
    ensures
        spectrum_entries(bins, frequency_resolution, FrequencyLimit::All, arith).len()
            == bins.len(),
        forall|i: int|
            0 <= i < bins.len() ==> {
                &&& (#[trigger] spectrum_entries(
                    bins,
                    frequency_resolution,
                    FrequencyLimit::All,
                    arith,
                )[i]).0.bits == bin_frequency(i, frequency_resolution, arith)
                &&& spectrum_entries(bins, frequency_resolution, FrequencyLimit::All, arith)[i].1.bits
                    == spec_complex_to_magnitude(&bins[i], arith)
            },
    decreases bins.len(),
{
    if bins.len() > 0 {
        lemma_spectrum_without_limit(bins.drop_last(), frequency_resolution, arith);
    }
}

/// Without a limit the spectrum of `samples_len` samples has
/// `samples_len / 2 + 1` entries. The first is at 0 times the frequency
/// resolution and the last at `samples_len / 2` times the frequency
/// resolution, which is the Nyquist frequency.
///
/// `raw` is what the transform hands back for so many samples.
pub proof fn lemma_spectrum_of_all_frequencies<A: Fn(Operation) -> u32>(
    samples_len: usize,
    raw: Seq<Complex32>,
    frequency_resolution: u32,
    arith: &Arithmetic<A>,
)
    requires
        samples_len >= 2,
        raw.len() == samples_len / 2,
    ensures
        ({
            let entries = spectrum_entries(
                relevant_bins(samples_len, unpacked(raw)),
                frequency_resolution,
                FrequencyLimit::All,
                arith,
            );
            &&& entries.len() == samples_len / 2 + 1
            &&& entries[0].0.bits == bin_frequency(0, frequency_resolution, arith)
            &&& entries[samples_len as int / 2].0.bits == bin_frequency(
                samples_len as int / 2,
                frequency_resolution,
                arith,
            )
        }),
{
    lemma_spectrum_without_limit(
        relevant_bins(samples_len, unpacked(raw)),
        frequency_resolution,
        arith,
    );
}

/// `view` is the spectrum of the given entries: it holds them, the
/// frequency resolution and the number of samples, and the statistics of
/// the values of the entries.
pub open spec fn is_spectrum_of<A: Fn(Operation) -> u32>(
    view: SpectrumView,
    entries: Seq<(Frequency, FrequencyValue)>,
    frequency_resolution: u32,
    samples_len: u32,
    arith: &Arithmetic<A>,
) -> bool {
    &&& view.data == entries
    &&& view.frequency_resolution == frequency_resolution
    &&& view.samples_len == samples_len
    &&& view.wf()
    &&& view.extremes_are_current()
    &&& exists|sorted: Seq<(Frequency, FrequencyValue)>| #[trigger] view.has_statistics(sorted, arith)
}

/// `result` is what the analysis makes of the bins of a transform.
///
/// The analysis first makes the spectrum of the entries that the bins give
/// under the limit: see [`spectrum_entries`]. Only the first
/// `samples_len / 2 + 1` bins count. Without a scaling function that
/// spectrum is the result. With one, the result is that spectrum scaled, or
/// the error of the scaling, which stopped at the first value that the
/// function turned into a NaN or into an infinite number.
pub open spec fn is_analysis_of<S: Fn(u32, &SpectrumDataStats) -> u32, A: Fn(Operation) -> u32>(
    result: Result<FrequencySpectrum, SpectrumAnalyzerError>,
    samples_len: usize,
    fft_result: Seq<Complex32>,
    sampling_rate: u32,
    frequency_limit: FrequencyLimit,
    scaling_fn: Option<&S>,
    arith: &Arithmetic<A>,
) -> bool {
    let frequency_resolution = spec_fft_calc_frequency_resolution(
        sampling_rate,
        samples_len as u32,
        arith,
    );
    let entries = spectrum_entries(
        relevant_bins(samples_len, fft_result),
        frequency_resolution,
        frequency_limit,
        arith,
    );
    match (scaling_fn, result) {
        (None, Ok(spectrum)) => is_spectrum_of(
            spectrum@,
            entries,
            frequency_resolution,
            samples_len as u32,
            arith,
        ),
        (None, Err(_)) => false,
        (Some(f), Ok(spectrum)) => exists|unscaled: SpectrumView|
            {
                &&& #[trigger] is_spectrum_of(
                    unscaled,
                    entries,
                    frequency_resolution,
                    samples_len as u32,
                    arith,
                )
                &&& unscaled.is_scaled_to(spectrum@.data, *f, arith)
                &&& is_spectrum_of(
                    spectrum@,
                    spectrum@.data,
                    frequency_resolution,
                    samples_len as u32,
                    arith,
                )
            },
        (Some(f), Err(e)) => exists|unscaled: SpectrumView|
            {
                &&& #[trigger] is_spectrum_of(
                    unscaled,
                    entries,
                    frequency_resolution,
                    samples_len as u32,
                    arith,
                )
                &&& exists|after: Seq<(Frequency, FrequencyValue)>| #[trigger]
                    unscaled.is_scaling_failure(after, e, *f, arith)
            },
    }
}

/// The bins of a transform of `samples_len` samples that matter: the first
/// `samples_len / 2 + 1`, which stand for the frequencies from 0 to the
/// Nyquist frequency. What follows them mirrors them.
pub open spec fn relevant_bins(samples_len: usize, fft_result: Seq<Complex32>) -> Seq<Complex32> {
    if fft_result.len() <= samples_len / 2 + 1 {
        fft_result
    } else {
        fft_result.take(samples_len / 2 + 1)
    }
}

/// Turns the result of a transform into a spectrum: computes the frequency
/// of each bin, drops the bins that the limit does not keep, computes the
/// magnitude of every bin that is left, gathers the statistics and, where a
/// scaling function is given, scales the values.
///
/// `samples_len` is the number of samples that were transformed. The limit
/// has to keep two bins at least, which [`retained_bins`] tells.
pub fn fft_result_to_spectrum<S: Fn(u32, &SpectrumDataStats) -> u32, A: Fn(Operation) -> u32>(
    samples_len: usize,
    fft_result: &Vec<Complex32>,
    sampling_rate: u32,
    frequency_limit: FrequencyLimit,
    scaling_fn: Option<&S>,
    arith: &Arithmetic<A>,
) -> (r: Result<FrequencySpectrum, SpectrumAnalyzerError>)
    requires
        arith.wf(),
        samples_len <= u32::MAX,
        spec_retained_bins(
            relevant_bins(samples_len, fft_result@).len(),
            spec_fft_calc_frequency_resolution(sampling_rate, samples_len as u32, arith),
            frequency_limit,
            arith,
        ) >= 2,
        scaling_fn matches Some(f) ==> forall|v: u32, stats: SpectrumDataStats| #[trigger]
            call_requires(*f, (v, &stats)),
    ensures
        is_analysis_of(
            r,
            samples_len,
            fft_result@,
            sampling_rate,
            frequency_limit,
            scaling_fn,
            arith,
        ),
{
    let frequency_resolution = fft_calc_frequency_resolution(
        sampling_rate,
        samples_len as u32,
        arith,
    );
    let relevant = if fft_result.len() <= samples_len / 2 + 1 {
        fft_result.len()
    } else {
        samples_len / 2 + 1
    };
    let ghost bins = relevant_bins(samples_len, fft_result@);
    let mut frequency_vec: Vec<(Frequency, FrequencyValue)> = Vec::new();
    let mut working_buffer: Vec<(Frequency, FrequencyValue)> = Vec::new();
    let mut i: usize = 0;
    while i < relevant
        invariant
            arith.wf(),
            i <= relevant,
            relevant == bins.len(),
            relevant <= fft_result.len(),
            forall|k: int| 0 <= k < relevant ==> bins[k] == fft_result[k],
            frequency_vec@ == spectrum_entries(
                bins.take(i as int),
                frequency_resolution,
                frequency_limit,
                arith,
            ),
            working_buffer.len() == frequency_vec.len(),
        decreases relevant - i,
    {
        assert(bins.take(i + 1).drop_last() =~= bins.take(i as int));
        let frequency = arith.times(arith.from_int(i as u64), frequency_resolution);
        if frequency_limit.keeps(frequency) {
            let val = complex_to_magnitude(&fft_result[i], arith);
            frequency_vec.push((OrderableF32 { bits: frequency }, OrderableF32 { bits: val }));
            working_buffer.push((OrderableF32 { bits: ZERO }, OrderableF32 { bits: ZERO }));
        }
        i += 1;
    }
    proof {
        assert(bins.take(i as int) =~= bins);
        lemma_spectrum_entries_len(bins, frequency_resolution, frequency_limit, arith);
    }
    let mut spectrum = FrequencySpectrum::new(
        frequency_vec,
        frequency_resolution,
        samples_len as u32,
        &mut working_buffer,
        arith,
    );
    assert(is_spectrum_of(
        spectrum@,
        spectrum_entries(bins, frequency_resolution, frequency_limit, arith),
        frequency_resolution,
        samples_len as u32,
        arith,
    ));
    match scaling_fn {
        None => Ok(spectrum),
        Some(f) => {
            match spectrum.apply_scaling_fn(f, &mut working_buffer, arith) {
                Ok(()) => Ok(spectrum),
                Err(e) => Err(e),
            }
        },
    }
}

/// What is wrong with the input of an analysis, if anything. The first of
/// these that holds decides:
/// - there are fewer than two samples;
/// - a sample is a NaN;
/// - a sample is infinite;
/// - the number of samples is not a power of two;
/// - the frequency limit is not valid for `max_detectable_frequency`.
pub open spec fn input_error(
    samples: Seq<u32>,
    frequency_limit: FrequencyLimit,
    max_detectable_frequency: u32,
) -> Option<SpectrumAnalyzerError> {
    if samples.len() < 2 {
        Some(SpectrumAnalyzerError::TooFewSamples)
    } else if exists|i: int| 0 <= i < samples.len() && spec_is_nan(#[trigger] samples[i]) {
        Some(SpectrumAnalyzerError::NaNValuesNotSupported)
    } else if exists|i: int| 0 <= i < samples.len() && spec_is_infinite(#[trigger] samples[i]) {
        Some(SpectrumAnalyzerError::InfinityValuesNotSupported)
    } else if !is_pow2(samples.len() as int) {
        Some(SpectrumAnalyzerError::SamplesLengthNotAPowerOfTwo)
    } else {
        match frequency_limit.error(max_detectable_frequency) {
            Some(e) => Some(SpectrumAnalyzerError::InvalidFrequencyLimit(e)),
            None => None,
        }
    }
}

/// Whether one of the samples is a NaN.
fn any_nan(samples: &Vec<u32>) -> (r: bool)
    ensures
        r == exists|i: int| 0 <= i < samples.len() && spec_is_nan(#[trigger] samples[i]),
{
    let mut i: usize = 0;
    while i < samples.len()
        invariant
            i <= samples.len(),
            forall|k: int| 0 <= k < i ==> !spec_is_nan(#[trigger] samples[k]),
        decreases samples.len() - i,
    {
        if is_nan(samples[i]) {
            return true;
        }
        i += 1;
    }
    false
}

/// Whether one of the samples is infinite.
fn any_infinite(samples: &Vec<u32>) -> (r: bool)
    ensures
        r == exists|i: int| 0 <= i < samples.len() && spec_is_infinite(#[trigger] samples[i]),
{
    let mut i: usize = 0;
    while i < samples.len()
        invariant
            i <= samples.len(),
            forall|k: int| 0 <= k < i ==> !spec_is_infinite(#[trigger] samples[k]),
        decreases samples.len() - i,
    {
        if is_infinite(samples[i]) {
            return true;
        }
        i += 1;
    }
    false
}

/// Checks the input of an analysis: see [`input_error`].
pub fn check_input(
    samples: &Vec<u32>,
    frequency_limit: FrequencyLimit,
    max_detectable_frequency: u32,
) -> (r: Result<(), SpectrumAnalyzerError>)
    ensures
        match input_error(samples@, frequency_limit, max_detectable_frequency) {
            Some(e) => r == Err::<(), SpectrumAnalyzerError>(e),
            None => r is Ok,
        },
{
    if samples.len() < 2 {
        return Err(SpectrumAnalyzerError::TooFewSamples);
    }
    if any_nan(samples) {
        return Err(SpectrumAnalyzerError::NaNValuesNotSupported);
    }
    if any_infinite(samples) {
        return Err(SpectrumAnalyzerError::InfinityValuesNotSupported);
    }
    if !is_power_of_two(samples.len()) {
        return Err(SpectrumAnalyzerError::SamplesLengthNotAPowerOfTwo);
    }
    match frequency_limit.verify(max_detectable_frequency) {
        Err(e) => Err(SpectrumAnalyzerError::InvalidFrequencyLimit(e)),
        Ok(()) => Ok(()),
    }
}

/// Analyses a block of samples: transforms it and gives the frequencies with
/// their magnitudes.
///
/// - `samples` are the samples of the signal, for example 16-bit audio as
///   numbers. Their number is a power of two; a signal that is too short
///   is filled up with zeros. More samples give a finer resolution.
///   Applying a window function to them first gives a cleaner spectrum.
/// - `sampling_rate` is the rate in Hertz at which the signal was sampled.
/// - `frequency_limit` names the frequencies that are of interest.
/// - `scaling_fn` scales the magnitudes. Without one they are what the
///   transform gave.
/// - `arith` computes, and `rfft` is the transform: a real-valued FFT as
///   [`FftImpl::calc`] describes it.
///
/// The input is checked before anything is computed: on input that
/// [`input_error`] finds fault with, the transform is not asked for anything.
/// Input that passes has to be in the reach of the transform, see
/// [`FftImpl::supports`], and the limit has to keep two bins at least, see
/// [`retained_bins`].
pub fn samples_fft_to_spectrum<
    S: Fn(u32, &SpectrumDataStats) -> u32,
    A: Fn(Operation) -> u32,
    K: Fn(&Vec<u32>) -> Vec<Complex32>,
>(
    samples: &Vec<u32>,
    sampling_rate: u32,
    frequency_limit: FrequencyLimit,
    scaling_fn: Option<&S>,
    arith: &Arithmetic<A>,
    rfft: &K,
) -> (r: Result<FrequencySpectrum, SpectrumAnalyzerError>)
    requires
        arith.wf(),
        scaling_fn matches Some(f) ==> forall|v: u32, stats: SpectrumDataStats| #[trigger]
            call_requires(*f, (v, &stats)),
        input_error(samples@, frequency_limit, max_detectable_frequency(sampling_rate, arith))
            is None ==> {
            &&& FftImpl::spec_supports(samples.len())
            &&& call_requires(*rfft, (samples,))
            &&& forall|raw: Vec<Complex32>| #[trigger]
                call_ensures(*rfft, (samples,), raw) ==> raw.len() == samples.len() / 2
            &&& spec_retained_bins(
                (samples.len() / 2 + 1) as nat,
                spec_fft_calc_frequency_resolution(sampling_rate, samples.len() as u32, arith),
                frequency_limit,
                arith,
            ) >= 2
        },
    ensures
        match input_error(
            samples@,
            frequency_limit,
            max_detectable_frequency(sampling_rate, arith),
        ) {
            Some(e) => r == Err::<FrequencySpectrum, SpectrumAnalyzerError>(e),
            None => exists|raw: Vec<Complex32>|
                {
                    &&& #[trigger] call_ensures(*rfft, (samples,), raw)
                    &&& is_analysis_of(
                        r,
                        samples.len(),
                        unpacked(raw@),
                        sampling_rate,
                        frequency_limit,
                        scaling_fn,
                        arith,
                    )
                },
        },
{
    let nyquist = arith.over(arith.from_int(sampling_rate as u64), TWO);
    match check_input(samples, frequency_limit, nyquist) {
        Err(e) => {
            return Err(e);
        },
        Ok(()) => {},
    }
    let fft_res = FftImpl::calc(samples, rfft);
    fft_result_to_spectrum(
        samples.len(),
        &fft_res,
        sampling_rate,
        frequency_limit,
        scaling_fn,
        arith,
    )
}

/// Analyses a block of samples as [`samples_fft_to_spectrum`] does, for a
/// caller that has not looked at what the analysis asks of input that
/// passes its checks. It gives nothing where such input is out of the reach
/// of the transform, and where the limit keeps fewer than two bins.
///
/// `rfft` has to take every block of samples that is in its reach.
pub fn checked_samples_fft_to_spectrum<
    S: Fn(u32, &SpectrumDataStats) -> u32,
    A: Fn(Operation) -> u32,
    K: Fn(&Vec<u32>) -> Vec<Complex32>,
>(
    samples: &Vec<u32>,
    sampling_rate: u32,
    frequency_limit: FrequencyLimit,
    scaling_fn: Option<&S>,
    arith: &Arithmetic<A>,
    rfft: &K,
) -> (r: Option<Result<FrequencySpectrum, SpectrumAnalyzerError>>)
    requires
        arith.wf(),
        scaling_fn matches Some(f) ==> forall|v: u32, stats: SpectrumDataStats| #[trigger]
            call_requires(*f, (v, &stats)),
        FftImpl::spec_supports(samples.len()) ==> {
            &&& call_requires(*rfft, (samples,))
            &&& forall|raw: Vec<Complex32>| #[trigger]
                call_ensures(*rfft, (samples,), raw) ==> raw.len() == samples.len() / 2
        },
    ensures
        r is None <==> {
            &&& input_error(
                samples@,
                frequency_limit,
                max_detectable_frequency(sampling_rate, arith),
            ) is None
            &&& !(FftImpl::spec_supports(samples.len()) && spec_retained_bins(
                (samples.len() / 2 + 1) as nat,
                spec_fft_calc_frequency_resolution(sampling_rate, samples.len() as u32, arith),
                frequency_limit,
                arith,
            ) >= 2)
        },
        r matches Some(result) ==> match input_error(
            samples@,
            frequency_limit,
            max_detectable_frequency(sampling_rate, arith),
        ) {
            Some(e) => result == Err::<FrequencySpectrum, SpectrumAnalyzerError>(e),
            None => exists|raw: Vec<Complex32>|
                {
                    &&& #[trigger] call_ensures(*rfft, (samples,), raw)
                    &&& is_analysis_of(
                        result,
                        samples.len(),
                        unpacked(raw@),
                        sampling_rate,
                        frequency_limit,
                        scaling_fn,
                        arith,
                    )
                },
        },
{
    let nyquist = arith.over(arith.from_int(sampling_rate as u64), TWO);
    if check_input(samples, frequency_limit, nyquist).is_ok() {
        if !FftImpl::supports(samples.len()) {
            return None;
        }
        let frequency_resolution = fft_calc_frequency_resolution(
            sampling_rate,
            samples.len() as u32,
            arith,
        );
        let kept = retained_bins(
            samples.len() / 2 + 1,
            frequency_resolution,
            frequency_limit,
            arith,
        );
        if kept < 2 {
            return None;
        }
    }
    Some(samples_fft_to_spectrum(samples, sampling_rate, frequency_limit, scaling_fn, arith, rfft))
}

} // verus!
