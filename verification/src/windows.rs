//! Window functions, to be applied to the samples before they are
//! transformed. They take and give encoded numbers.
use crate::arithmetic::{Arithmetic, Operation};
use crate::ieee::{HALF, ONE, TWO, ZERO};
use vstd::prelude::*;

verus! {

/// The encoding of the single-precision number nearest to pi.
pub const PI: u32 = 0x4049_0fdb;

/// The encoding of `0.54`, the offset of the Hamming window.
pub const HAMMING_OFFSET: u32 = 0x3f0a_3d71;

/// The encoding of `0.46`, the factor of the Hamming window.
pub const HAMMING_FACTOR: u32 = 0x3eeb_851f;

/// The factor that the Hann window puts on the sample at `index` out of
/// `samples_len`: `0.5 * (1 - cos(2 * pi * index / samples_len))`.
pub open spec fn hann_multiplier<A: Fn(Operation) -> u32>(
    index: int,
    samples_len: int,
    arith: &Arithmetic<A>,
) -> u32 {
    let two_pi_i = arith.times(arith.times(TWO, PI), arith.from_int(index as u64));
    let cosine = arith.cos(arith.over(two_pi_i, arith.from_int(samples_len as u64)));
    arith.times(HALF, arith.minus(ONE, cosine))
}

/// Applies a Hann window to the samples: each sample is multiplied with its
/// [`hann_multiplier`].
pub fn hann_window<A: Fn(Operation) -> u32>(samples: &Vec<u32>, arith: &Arithmetic<A>) -> (r: Vec<
    u32,
>)
    requires
        arith.wf(),
    ensures
        r.len() == samples.len(),
        forall|i: int|
            0 <= i < r.len() ==> #[trigger] r[i] == arith.times(
                hann_multiplier(i, samples.len() as int, arith),
                samples[i],
            ),
{
    let mut windowed_samples: Vec<u32> = Vec::new();
    let samples_len = arith.from_int(samples.len() as u64);
    let mut i: usize = 0;
    while i < samples.len()
        invariant
            arith.wf(),
            i <= samples.len(),
            windowed_samples.len() == i,
            samples_len == arith.from_int(samples.len() as u64),
            forall|k: int|
                0 <= k < i ==> #[trigger] windowed_samples[k] == arith.times(
                    hann_multiplier(k, samples.len() as int, arith),
                    samples[k],
                ),
        decreases samples.len() - i,
    {
        let two_pi_i = arith.times(arith.times(TWO, PI), arith.from_int(i as u64));
        let cosine = arith.cos(arith.over(two_pi_i, samples_len));
        let multiplier = arith.times(HALF, arith.minus(ONE, cosine));
        windowed_samples.push(arith.times(multiplier, samples[i]));
        i += 1;
    }
    windowed_samples
}

/// The factor that the Hamming window puts on the sample at `index` out of
/// `samples_len`: `0.54 - 0.46 * (2 * pi * index / cos(samples_len - 1))`.
pub open spec fn hamming_multiplier<A: Fn(Operation) -> u32>(
    index: int,
    samples_len: int,
    arith: &Arithmetic<A>,
) -> u32 {
    let two_pi_i = arith.times(arith.times(TWO, PI), arith.from_int(index as u64));
    let cosine = arith.cos(arith.minus(arith.from_int(samples_len as u64), ONE));
    arith.minus(HAMMING_OFFSET, arith.times(HAMMING_FACTOR, arith.over(two_pi_i, cosine)))
}

/// Applies a Hamming window to the samples: each sample is multiplied with
/// its [`hamming_multiplier`].
pub fn hamming_window<A: Fn(Operation) -> u32>(samples: &Vec<u32>, arith: &Arithmetic<A>) -> (r:
    Vec<u32>)
    requires
        arith.wf(),
    ensures
        r.len() == samples.len(),
        forall|i: int|
            0 <= i < r.len() ==> #[trigger] r[i] == arith.times(
                hamming_multiplier(i, samples.len() as int, arith),
                samples[i],
            ),
{
    let mut windowed_samples: Vec<u32> = Vec::new();
    let samples_len = arith.from_int(samples.len() as u64);
    let mut i: usize = 0;
    while i < samples.len()
        invariant
            arith.wf(),
            i <= samples.len(),
            windowed_samples.len() == i,
            samples_len == arith.from_int(samples.len() as u64),
            forall|k: int|
                0 <= k < i ==> #[trigger] windowed_samples[k] == arith.times(
                    hamming_multiplier(k, samples.len() as int, arith),
                    samples[k],
                ),
        decreases samples.len() - i,
    {
        let two_pi_i = arith.times(arith.times(TWO, PI), arith.from_int(i as u64));
        let cosine = arith.cos(arith.minus(samples_len, ONE));
        let multiplier = arith.minus(
            HAMMING_OFFSET,
            arith.times(HAMMING_FACTOR, arith.over(two_pi_i, cosine)),
        );
        windowed_samples.push(arith.times(multiplier, samples[i]));
        i += 1;
    }
    windowed_samples
}

/// The coefficients of the Blackman-Harris window of four terms:
/// `0.35875`, `-0.48829`, `0.14128` and `-0.01168`.
pub open spec fn blackman_harris_4term_alphas() -> Seq<u32> {
    seq![0x3eb7_ae14u32, 0xbefa_0126u32, 0x3e10_abb4u32, 0xbc3f_5d79u32]
}

/// The coefficients of the Blackman-Harris window of seven terms:
/// `0.2710514`, `-0.43329793`, `0.218123`, `-0.06592545`, `0.010811742`,
/// `-0.00077658484` and `0.000013887217`.
pub open spec fn blackman_harris_7term_alphas() -> Seq<u32> {
    seq![
        0x3e8a_c740u32,
        0xbedd_d93au32,
        0x3e5f_5ba3u32,
        0xbd87_03ecu32,
        0x3c31_23bcu32,
        0xba4b_93bau32,
        0x3768_fd25u32,
    ]
}

/// What a Blackman-Harris window makes of one sample out of `samples_len`:
/// the sum, over the coefficients `alpha` at `k`, of
/// `alpha * cos((2 * k * pi * sample) / samples_len)`. The terms are added
/// to a sum that starts at `0.0`, from the first coefficient to the last.
pub open spec fn blackman_harris_sample<A: Fn(Operation) -> u32>(
    alphas: Seq<u32>,
    sample: u32,
    samples_len: int,
    arith: &Arithmetic<A>,
) -> u32
    decreases alphas.len(),
{
    if alphas.len() == 0 {
        ZERO
    } else {
        let two_pi_iteration = arith.times(
            arith.times(TWO, arith.from_int((alphas.len() - 1) as u64)),
            PI,
        );
        let cosine = arith.cos(
            arith.over(
                arith.times(two_pi_iteration, sample),
                arith.from_int(samples_len as u64),
            ),
        );
        arith.plus(
            blackman_harris_sample(alphas.drop_last(), sample, samples_len, arith),
            arith.times(alphas.last(), cosine),
        )
    }
}

/// Applies a Blackman-Harris window of four terms to the samples: see
/// [`blackman_harris_sample`] and [`blackman_harris_4term_alphas`].
pub fn blackman_harris_4term<A: Fn(Operation) -> u32>(
    samples: &Vec<u32>,
    arith: &Arithmetic<A>,
) -> (r: Vec<u32>)
    requires
        arith.wf(),
    ensures
        r.len() == samples.len(),
        forall|i: int|
            0 <= i < r.len() ==> #[trigger] r[i] == blackman_harris_sample(
                blackman_harris_4term_alphas(),
                samples[i],
                samples.len() as int,
                arith,
            ),
{
    let mut alphas: Vec<u32> = Vec::new();
    alphas.push(0x3eb7_ae14);
    alphas.push(0xbefa_0126);
    alphas.push(0x3e10_abb4);
    alphas.push(0xbc3f_5d79);
    assert(alphas@ =~= blackman_harris_4term_alphas());
    blackman_harris_xterm(samples, &alphas, arith)
}

/// Applies a Blackman-Harris window of seven terms to the samples: see
/// [`blackman_harris_sample`] and [`blackman_harris_7term_alphas`].
pub fn blackman_harris_7term<A: Fn(Operation) -> u32>(
    samples: &Vec<u32>,
    arith: &Arithmetic<A>,
) -> (r: Vec<u32>)
    requires
        arith.wf(),
    ensures
        r.len() == samples.len(),
        forall|i: int|
            0 <= i < r.len() ==> #[trigger] r[i] == blackman_harris_sample(
                blackman_harris_7term_alphas(),
                samples[i],
                samples.len() as int,
                arith,
            ),
{
    let mut alphas: Vec<u32> = Vec::new();
    alphas.push(0x3e8a_c740);
    alphas.push(0xbedd_d93a);
    alphas.push(0x3e5f_5ba3);
    alphas.push(0xbd87_03ec);
    alphas.push(0x3c31_23bc);
    alphas.push(0xba4b_93ba);
    alphas.push(0x3768_fd25);
    assert(alphas@ =~= blackman_harris_7term_alphas());
    blackman_harris_xterm(samples, &alphas, arith)
}

/// Applies the Blackman-Harris window with the given coefficients to the
/// samples.
fn blackman_harris_xterm<A: Fn(Operation) -> u32>(
    samples: &Vec<u32>,
    alphas: &Vec<u32>,
    arith: &Arithmetic<A>,
) -> (r: Vec<u32>)
    requires
        arith.wf(),
    ensures
        r.len() == samples.len(),
        forall|i: int|
            0 <= i < r.len() ==> #[trigger] r[i] == blackman_harris_sample(
                alphas@,
                samples[i],
                samples.len() as int,
                arith,
            ),
{
    let mut windowed_samples: Vec<u32> = Vec::new();
    let samples_len = arith.from_int(samples.len() as u64);
    let mut i: usize = 0;
    while i < samples.len()
        invariant
            arith.wf(),
            i <= samples.len(),
            windowed_samples.len() == i,
            samples_len == arith.from_int(samples.len() as u64),
            forall|k: int|
                0 <= k < i ==> #[trigger] windowed_samples[k] == blackman_harris_sample(
                    alphas@,
                    samples[k],
                    samples.len() as int,
                    arith,
                ),
        decreases samples.len() - i,
    {
        let sample = samples[i];
        let mut acc: u32 = ZERO;
        let mut alpha_i: usize = 0;
        while alpha_i < alphas.len()
            invariant
                arith.wf(),
                alpha_i <= alphas.len(),
                samples_len == arith.from_int(samples.len() as u64),
                acc == blackman_harris_sample(
                    alphas@.take(alpha_i as int),
                    sample,
                    samples.len() as int,
                    arith,
                ),
            decreases alphas.len() - alpha_i,
        {
            assert(alphas@.take(alpha_i + 1).drop_last() =~= alphas@.take(alpha_i as int));
            let two_pi_iteration = arith.times(
                arith.times(TWO, arith.from_int(alpha_i as u64)),
                PI,
            );
            let cosine = arith.cos(
                arith.over(arith.times(two_pi_iteration, sample), samples_len),
            );
            acc = arith.plus(acc, arith.times(alphas[alpha_i], cosine));
            alpha_i += 1;
        }
        assert(alphas@.take(alpha_i as int) =~= alphas@);
        windowed_samples.push(acc);
        i += 1;
    }
    windowed_samples
}

} // verus!
