//! The boundary to the Fourier transform: what is handed to a real-valued
//! transform, and how its packed result is laid out as one bin per frequency.
use crate::ieee::ZERO;
use vstd::arithmetic::power2::is_pow2;
use vstd::prelude::*;

verus! {

/// A complex number, each part an encoded single-precision number.
#[derive(Debug, Copy, Clone)]
pub struct Complex32 {
    /// The real part.
    pub re: u32,
    /// The imaginary part.
    pub im: u32,
}

impl Complex32 {
    /// The complex number with the given parts.
    pub fn new(re: u32, im: u32) -> (r: Self)
        ensures
            r.re == re,
            r.im == im,
    {
        Complex32 { re, im }
    }
}

/// Whether a number is a power of two.
pub fn is_power_of_two(n: usize) -> (r: bool)
    ensures
        r == is_pow2(n as int),
{
    let mut m: usize = n;
    while m > 1 && m % 2 == 0
        invariant
            is_pow2(m as int) == is_pow2(n as int),
        decreases m,
    {
        proof {
            reveal(is_pow2);
        }
        m = m / 2;
    }
    proof {
        reveal(is_pow2);
    }
    m == 1
}

/// The bins that a real-valued transform of `samples_len` samples is laid
/// out in by [`FftImpl::calc`]: what the transform hands back, which is
/// `raw`, with the value at the Nyquist frequency taken out of the imaginary
/// part of the first bin and put into a bin of its own at the end.
pub open spec fn unpacked(raw: Seq<Complex32>) -> Seq<Complex32> {
    seq![Complex32 { re: raw[0].re, im: ZERO }] + raw.subrange(1, raw.len() as int)
        + seq![Complex32 { re: raw[0].im, im: ZERO }]
}

/// The transform that the library is built on: a real-valued FFT that packs
/// the Nyquist bin into the bin of the DC component.
pub struct FftImpl;

impl FftImpl {
    /// The largest number of samples that the transform takes.
    pub const MAX_SAMPLES: usize = 32768;

    /// Whether the transform takes so many samples: a power of two from 2 to
    /// [`FftImpl::MAX_SAMPLES`].
    pub open spec fn spec_supports(samples_len: usize) -> bool {
        2 <= samples_len <= Self::MAX_SAMPLES && is_pow2(samples_len as int)
    }

    /// Whether the transform takes so many samples: a power of two from 2 to
    /// [`FftImpl::MAX_SAMPLES`].
    #[verifier::when_used_as_spec(spec_supports)]
    pub fn supports(samples_len: usize) -> (r: bool)
        ensures
            r == Self::spec_supports(samples_len),
    {
        2 <= samples_len && samples_len <= Self::MAX_SAMPLES && is_power_of_two(samples_len)
    }

    /// The number of bins that matter in the transform of `samples_len`
    /// samples: one for each frequency from 0 to the Nyquist frequency, both
    /// included. Bins beyond those mirror them.
    pub fn fft_relevant_res_samples_count(samples_len: usize) -> (r: usize)
        ensures
            r == samples_len / 2 + 1,
    {
        samples_len / 2 + 1
    }

    /// Transforms the samples with `rfft` and lays the result out as one bin
    /// per frequency: the first is the DC component, the last the Nyquist
    /// frequency.
    ///
    /// `rfft` is a real-valued FFT. Of `N` samples it hands back `N / 2`
    /// bins, the first of which holds the DC component in its real part and
    /// the value at the Nyquist frequency in its imaginary part.
    pub fn calc<K: Fn(&Vec<u32>) -> Vec<Complex32>>(samples: &Vec<u32>, rfft: &K) -> (r: Vec<
        Complex32,
    >)
        requires
            Self::spec_supports(samples.len()),
            call_requires(*rfft, (samples,)),
            forall|raw: Vec<Complex32>| #[trigger]
                call_ensures(*rfft, (samples,), raw) ==> raw.len() == samples.len() / 2,
        ensures
            r.len() == samples.len() / 2 + 1,
            exists|raw: Vec<Complex32>| #[trigger]
                call_ensures(*rfft, (samples,), raw) && r@ == unpacked(raw@),
    {
        let mut buffer = rfft(samples);
        let ghost raw = buffer;
        let nyquist_fr_pos_val = buffer[0].im;
        let dc = Complex32 { re: buffer[0].re, im: ZERO };
        buffer.set(0, dc);
        buffer.push(Complex32 { re: nyquist_fr_pos_val, im: ZERO });
        assert(buffer@ =~= unpacked(raw@));
        buffer
    }
}

} // verus!
