//! Functions that scale the values of a spectrum, for use with
//! [`crate::spectrum::FrequencySpectrum::apply_scaling_fn`]. They are meant
//! as a start: combine them, or write others after them.
//!
//! A scaling function takes a value and the statistics of the spectrum and
//! gives the scaled value: it is any `Fn(u32, &SpectrumDataStats) -> u32`
//! on encoded numbers. It changes the value at a frequency, never the
//! frequency. A result that is a NaN or infinite makes the scaling fail, so
//! a scaling function has to avoid dividing by zero.
use crate::arithmetic::{Arithmetic, Operation};
use crate::ieee::{equal, spec_equal, TWENTY, ZERO};
use vstd::prelude::*;

verus! {

/// The statistics of a spectrum as a scaling function sees them: those of
/// the values before the scaling began. Every field is an encoded number.
#[derive(Debug, Copy, Clone)]
pub struct SpectrumDataStats {
    /// The lowest value of the spectrum.
    pub min: u32,
    /// The highest value of the spectrum.
    pub max: u32,
    /// The mean of the values.
    pub average: u32,
    /// The median of the values.
    pub median: u32,
    /// The number of samples that were analysed. It is not the number of
    /// entries where a frequency limit was applied.
    pub n: u32,
}

/// `20 * log10(fr_val)`, and `0` for a value of zero, which has no
/// logarithm.
pub open spec fn spec_scale_20_times_log10<A: Fn(Operation) -> u32>(
    fr_val: u32,
    stats: &SpectrumDataStats,
    arith: &Arithmetic<A>,
) -> u32 {
    if spec_equal(fr_val, ZERO) {
        ZERO
    } else {
        arith.times(TWENTY, arith.log10(fr_val))
    }
}

/// Scales a value to decibel: 20 times its logarithm to the base 10. A value
/// of zero stays zero.
#[verifier::when_used_as_spec(spec_scale_20_times_log10)]
pub fn scale_20_times_log10<A: Fn(Operation) -> u32>(
    fr_val: u32,
    stats: &SpectrumDataStats,
    arith: &Arithmetic<A>,
) -> (r: u32)
    requires
        arith.wf(),
    ensures
        r == spec_scale_20_times_log10(fr_val, stats, arith),
{
    if equal(fr_val, ZERO) {
        ZERO
    } else {
        arith.times(TWENTY, arith.log10(fr_val))
    }
}

/// `fr_val / max`, and `0` where the highest value is zero.
pub open spec fn spec_scale_to_zero_to_one<A: Fn(Operation) -> u32>(
    fr_val: u32,
    stats: &SpectrumDataStats,
    arith: &Arithmetic<A>,
) -> u32 {
    if !spec_equal(stats.max, ZERO) {
        arith.over(fr_val, stats.max)
    } else {
        ZERO
    }
}

/// Scales a value into the interval from 0 to 1: the value over the highest
/// value of the spectrum. It expects values that are not negative.
#[verifier::when_used_as_spec(spec_scale_to_zero_to_one)]
pub fn scale_to_zero_to_one<A: Fn(Operation) -> u32>(
    fr_val: u32,
    stats: &SpectrumDataStats,
    arith: &Arithmetic<A>,
) -> (r: u32)
    requires
        arith.wf(),
    ensures
        r == spec_scale_to_zero_to_one(fr_val, stats, arith),
{
    if !equal(stats.max, ZERO) {
        arith.over(fr_val, stats.max)
    } else {
        ZERO
    }
}

/// `fr_val / n`, and `fr_val` where `n` is zero.
#[allow(non_snake_case)]
pub open spec fn spec_divide_by_N<A: Fn(Operation) -> u32>(
    fr_val: u32,
    stats: &SpectrumDataStats,
    arith: &Arithmetic<A>,
) -> u32 {
    if spec_equal(stats.n, ZERO) {
        fr_val
    } else {
        arith.over(fr_val, stats.n)
    }
}

/// Divides a value by the number of samples, which makes the spectra of
/// blocks of different lengths comparable.
#[allow(non_snake_case)]
#[verifier::when_used_as_spec(spec_divide_by_N)]
pub fn divide_by_N<A: Fn(Operation) -> u32>(
    fr_val: u32,
    stats: &SpectrumDataStats,
    arith: &Arithmetic<A>,
) -> (r: u32)
    requires
        arith.wf(),
    ensures
        r == spec_divide_by_N(fr_val, stats, arith),
{
    if equal(stats.n, ZERO) {
        fr_val
    } else {
        arith.over(fr_val, stats.n)
    }
}

/// `fr_val / sqrt(n)`, and `fr_val` where `n` is zero.
#[allow(non_snake_case)]
pub open spec fn spec_divide_by_N_sqrt<A: Fn(Operation) -> u32>(
    fr_val: u32,
    stats: &SpectrumDataStats,
    arith: &Arithmetic<A>,
) -> u32 {
    if spec_equal(stats.n, ZERO) {
        fr_val
    } else {
        arith.over(fr_val, arith.sqrt(stats.n))
    }
}

/// Divides a value by the square root of the number of samples.
#[allow(non_snake_case)]
#[verifier::when_used_as_spec(spec_divide_by_N_sqrt)]
pub fn divide_by_N_sqrt<A: Fn(Operation) -> u32>(
    fr_val: u32,
    stats: &SpectrumDataStats,
    arith: &Arithmetic<A>,
) -> (r: u32)
    requires
        arith.wf(),
    ensures
        r == spec_divide_by_N_sqrt(fr_val, stats, arith),
{
    if equal(stats.n, ZERO) {
        fr_val
    } else {
        arith.over(fr_val, arith.sqrt(stats.n))
    }
}

/// `steps` are the values that a chain of scaling functions passes through:
/// it starts with `val`, and each function turns one step into the next,
/// all of them with the same statistics.
pub open spec fn is_chain<S: Fn(u32, &SpectrumDataStats) -> u32>(
    fncs: Seq<S>,
    val: u32,
    stats: &SpectrumDataStats,
    steps: Seq<u32>,
) -> bool {
    &&& steps.len() == fncs.len() + 1
    &&& steps[0] == val
    &&& forall|i: int|
        0 <= i < fncs.len() ==> call_ensures(fncs[i], (steps[i], stats), #[trigger] steps[i + 1])
}

/// Applies several scaling functions one after the other: the first to
/// `val`, each further one to what the one before it gave. All of them see
/// the same statistics.
pub fn combined<S: Fn(u32, &SpectrumDataStats) -> u32>(
    fncs: &Vec<S>,
    val: u32,
    stats: &SpectrumDataStats,
) -> (r: u32)
    requires
        forall|i: int, v: u32| 0 <= i < fncs.len() ==> #[trigger] call_requires(fncs[i], (v, stats)),
    ensures
        exists|steps: Seq<u32>| #[trigger] is_chain(fncs@, val, stats, steps) && r == steps.last(),
{
    let mut current = val;
    let ghost mut steps: Seq<u32> = seq![val];
    let mut i: usize = 0;
    while i < fncs.len()
        invariant
            i <= fncs.len(),
            forall|i: int, v: u32|
                0 <= i < fncs.len() ==> #[trigger] call_requires(fncs[i], (v, stats)),
            is_chain(fncs@.take(i as int), val, stats, steps),
            steps.last() == current,
        decreases fncs.len() - i,
    {
        let ghost before = steps;
        current = (fncs[i])(current, stats);
        proof {
            steps = steps.push(current);
            assert forall|k: int| 0 <= k < i + 1 implies call_ensures(
                fncs@.take(i + 1)[k],
                (steps[k], stats),
                #[trigger] steps[k + 1],
            ) by {
                if k < i {
                    assert(fncs@.take(i as int)[k] == fncs@.take(i + 1)[k]);
                    assert(before[k + 1] == steps[k + 1]);
                }
            }
        }
        i += 1;
    }
    assert(fncs@.take(i as int) =~= fncs@);
    current
}

} // verus!
