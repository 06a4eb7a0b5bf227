//! A coarser view of a spectrum for display: the higher the frequencies, the
//! more neighbouring entries are averaged into one.
//!
//! Entries are taken in their order. An entry of at most 128 Hz is kept as
//! it is. An entry above 128 Hz goes into a bucket, and a bucket is closed
//! and replaced by one entry, the mean of its frequencies with the mean of
//! its values,
//! - before an entry whose frequency lies above the next boundary, where
//!   the boundaries are the powers of two from 256 Hz on, so that no bucket
//!   reaches across a boundary;
//! - after the entry with which it is full: a bucket takes 2 entries up to
//!   256 Hz, 4 entries up to 1024 Hz and 8 entries above;
//! - before an entry of at most 128 Hz, and at the end.
use crate::arithmetic::{Arithmetic, Operation};
use crate::frequency::{Frequency, FrequencyValue, OrderableF32};
use crate::ieee::{
    greater_than, less_or_equal, spec_greater_than, spec_less_or_equal, INFINITY,
};
use crate::spectrum::{values_of, FrequencySpectrum};
use crate::util::{lemma_bucket_mean, AverageBucket};
use vstd::prelude::*;

verus! {

/// The encoding of `128.0`: up to this frequency every entry is kept.
pub const LOWEST_BAND: u32 = 0x4300_0000;

/// The encoding of `256.0`, the first boundary.
pub const FIRST_BOUNDARY: u32 = 0x4380_0000;

/// The encoding of `1024.0`: above this frequency a bucket takes 8 entries.
pub const WIDE_BAND: u32 = 0x4480_0000;

/// What doubling a power of two adds to its encoding: one step of the
/// exponent.
pub const DOUBLING: u32 = 0x0080_0000;

/// The frequencies of a sequence of entries, as encoded numbers.
pub open spec fn frequencies_of(entries: Seq<(Frequency, FrequencyValue)>) -> Seq<u32> {
    Seq::new(entries.len(), |i: int| entries[i].0.bits)
}

/// The number of entries that make a bucket full, by the frequency of the
/// entry that was added last.
pub open spec fn spec_shrink_factor(frequency: u32) -> u64 {
    if spec_less_or_equal(frequency, LOWEST_BAND) {
        1
    } else if spec_less_or_equal(frequency, FIRST_BOUNDARY) {
        2
    } else if spec_less_or_equal(frequency, WIDE_BAND) {
        4
    } else {
        8
    }
}

/// The number of entries that make a bucket full, by the frequency of the
/// entry that was added last.
#[verifier::when_used_as_spec(spec_shrink_factor)]
pub fn shrink_factor(frequency: u32) -> (r: u64)
    ensures
        r == spec_shrink_factor(frequency),
{
    if less_or_equal(frequency, LOWEST_BAND) {
        1
    } else if less_or_equal(frequency, FIRST_BOUNDARY) {
        2
    } else if less_or_equal(frequency, WIDE_BAND) {
        4
    } else {
        8
    }
}

/// The boundary that holds for a frequency: `boundary`, doubled as often as
/// the frequency lies above it. The doubling ends at infinity.
pub open spec fn spec_next_boundary(boundary: u32, frequency: u32) -> u32
    decreases u32::MAX - boundary,
{
    if boundary < INFINITY && spec_greater_than(frequency, boundary) {
        spec_next_boundary((boundary + DOUBLING) as u32, frequency)
    } else {
        boundary
    }
}

/// The boundary that holds for a frequency: `boundary`, doubled as often as
/// the frequency lies above it.
#[verifier::when_used_as_spec(spec_next_boundary)]
pub fn next_boundary(boundary: u32, frequency: u32) -> (r: u32)
    ensures
        r == spec_next_boundary(boundary, frequency),
{
    let mut current = boundary;
    while current < INFINITY && greater_than(frequency, current)
        invariant
            spec_next_boundary(current, frequency) == spec_next_boundary(boundary, frequency),
        decreases u32::MAX - current,
    {
        current = current + DOUBLING;
    }
    current
}

/// How far the entries of a spectrum have been gathered.
pub struct LogBuckets {
    /// The entries of the coarser view so far.
    pub done: Seq<(Frequency, FrequencyValue)>,
    /// The entries in the open bucket.
    pub run: Seq<(Frequency, FrequencyValue)>,
    /// The boundary that the open bucket must not reach across.
    pub boundary: u32,
}

impl LogBuckets {
    /// The state before the first entry: nothing is done, the bucket is
    /// empty and the boundary is at 256 Hz.
    pub open spec fn start() -> LogBuckets {
        LogBuckets { done: Seq::empty(), run: Seq::empty(), boundary: FIRST_BOUNDARY }
    }

    /// The entry that takes the place of the open bucket: the mean of its
    /// frequencies with the mean of its values.
    pub open spec fn averaged<A: Fn(Operation) -> u32>(self, arith: &Arithmetic<A>) -> (
        Frequency,
        FrequencyValue,
    ) {
        (
            OrderableF32 { bits: arith.mean_of(frequencies_of(self.run)) },
            OrderableF32 { bits: arith.mean_of(values_of(self.run)) },
        )
    }

    /// The state with the open bucket closed: its mean is appended to what
    /// is done, unless the bucket is empty.
    pub open spec fn flushed<A: Fn(Operation) -> u32>(self, arith: &Arithmetic<A>) -> LogBuckets {
        if self.run.len() == 0 {
            self
        } else {
            LogBuckets {
                done: self.done.push(self.averaged(arith)),
                run: Seq::empty(),
                boundary: self.boundary,
            }
        }
    }

    /// The state after one more entry.
    pub open spec fn step<A: Fn(Operation) -> u32>(
        self,
        entry: (Frequency, FrequencyValue),
        arith: &Arithmetic<A>,
    ) -> LogBuckets {
        if spec_less_or_equal(entry.0.bits, LOWEST_BAND) {
            LogBuckets {
                done: self.flushed(arith).done.push(entry),
                run: Seq::empty(),
                boundary: self.boundary,
            }
        } else {
            let opened = if spec_greater_than(entry.0.bits, self.boundary) {
                self.flushed(arith)
            } else {
                self
            };
            let filled = LogBuckets {
                done: opened.done,
                run: opened.run.push(entry),
                boundary: spec_next_boundary(self.boundary, entry.0.bits),
            };
            if filled.run.len() >= spec_shrink_factor(entry.0.bits) {
                filled.flushed(arith)
            } else {
                filled
            }
        }
    }

    /// The state after all of the given entries, taken in their order.
    pub open spec fn after<A: Fn(Operation) -> u32>(
        entries: Seq<(Frequency, FrequencyValue)>,
        arith: &Arithmetic<A>,
    ) -> LogBuckets
        decreases entries.len(),
    {
        if entries.len() == 0 {
            LogBuckets::start()
        } else {
            LogBuckets::after(entries.drop_last(), arith).step(entries.last(), arith)
        }
    }
}

/// The coarser view of the given entries: what is done after all of them,
/// with the last bucket closed.
pub open spec fn log_spectrum_of<A: Fn(Operation) -> u32>(
    entries: Seq<(Frequency, FrequencyValue)>,
    arith: &Arithmetic<A>,
) -> Seq<(Frequency, FrequencyValue)> {
    LogBuckets::after(entries, arith).flushed(arith).done
}

/// Entries of at most 128 Hz are kept as they are: the coarser view of a
/// spectrum that has no other entries is the spectrum.
pub proof fn lemma_low_frequencies_are_kept<A: Fn(Operation) -> u32>(
    entries: Seq<(Frequency, FrequencyValue)>,
    arith: &Arithmetic<A>,
)
    requires
        forall|i: int|
            0 <= i < entries.len() ==> spec_less_or_equal(
                (#[trigger] entries[i]).0.bits,
                LOWEST_BAND,
            ),
    ensures
        LogBuckets::after(entries, arith) == (LogBuckets {
            done: entries,
            run: Seq::empty(),
            boundary: FIRST_BOUNDARY,
        }),
        log_spectrum_of(entries, arith) == entries,
    decreases entries.len(),
{
    if entries.len() > 0 {
        lemma_low_frequencies_are_kept(entries.drop_last(), arith);
        assert(entries.drop_last().push(entries.last()) =~= entries);
    } else {
        assert(entries =~= Seq::empty());
    }
}

/// The coarser view has no more entries than the spectrum.
pub proof fn lemma_log_spectrum_is_no_longer<A: Fn(Operation) -> u32>(
    entries: Seq<(Frequency, FrequencyValue)>,
    arith: &Arithmetic<A>,
)
    ensures
        LogBuckets::after(entries, arith).done.len() + LogBuckets::after(entries, arith).run.len()
            <= entries.len(),
        log_spectrum_of(entries, arith).len() <= entries.len(),
    decreases entries.len(),
{
    if entries.len() > 0 {
        lemma_log_spectrum_is_no_longer(entries.drop_last(), arith);
    }
}

/// An open bucket is never full: it holds fewer than 8 entries.
pub proof fn lemma_open_bucket_is_short<A: Fn(Operation) -> u32>(
    entries: Seq<(Frequency, FrequencyValue)>,
    arith: &Arithmetic<A>,
)
    ensures
        LogBuckets::after(entries, arith).run.len() < 8,
    decreases entries.len(),
{
    if entries.len() > 0 {
        lemma_open_bucket_is_short(entries.drop_last(), arith);
    }
}

/// Closes the bucket that the two sums stand for: appends its mean to
/// `done`, unless it is empty, and empties the sums.
fn flush<A: Fn(Operation) -> u32>(
    done: &mut Vec<(Frequency, FrequencyValue)>,
    frequencies: &mut AverageBucket,
    values: &mut AverageBucket,
    arith: &Arithmetic<A>,
)
    requires
        arith.wf(),
    ensures
        final(done)@ == if old(values).n == 0 {
            old(done)@
        } else {
            old(done)@.push(
                (
                    OrderableF32 { bits: old(frequencies).spec_avg(arith) },
                    OrderableF32 { bits: old(values).spec_avg(arith) },
                ),
            )
        },
        final(frequencies).sum == crate::ieee::ZERO,
        final(frequencies).n == 0,
        final(values).sum == crate::ieee::ZERO,
        final(values).n == 0,
{
    if values.n != 0 {
        let frequency = frequencies.avg(arith);
        let value = values.avg(arith);
        done.push((OrderableF32 { bits: frequency }, OrderableF32 { bits: value }));
    }
    frequencies.reset();
    values.reset();
}

impl FrequencySpectrum {
    /// A coarser view of the spectrum for display, in which neighbouring
    /// entries above 128 Hz are averaged: two of them up to 256 Hz, four up
    /// to 1024 Hz and eight above, and never across a power of two. Entries
    /// up to 128 Hz are kept. The module describes the rule in full.
    pub fn to_log_spectrum<A: Fn(Operation) -> u32>(&self, arith: &Arithmetic<A>) -> (r: Vec<
        (Frequency, FrequencyValue),
    >)
        requires
            arith.wf(),
        ensures
            r@ == log_spectrum_of(self@.data, arith),
    {
        let data = self.data();
        let mut done: Vec<(Frequency, FrequencyValue)> = Vec::new();
        let mut frequencies = AverageBucket::new();
        let mut values = AverageBucket::new();
        let mut boundary: u32 = FIRST_BOUNDARY;
        let ghost mut run: Seq<(Frequency, FrequencyValue)> = Seq::empty();
        let mut i: usize = 0;
        while i < data.len()
            invariant
                arith.wf(),
                i <= data.len(),
                (LogBuckets { done: done@, run, boundary }) == LogBuckets::after(
                    data@.take(i as int),
                    arith,
                ),
                run.len() < 8,
                frequencies.n == run.len(),
                values.n == run.len(),
                frequencies.sum == arith.sum_of(frequencies_of(run)),
                values.sum == arith.sum_of(values_of(run)),
            decreases data.len() - i,
        {
            let ghost state = LogBuckets { done: done@, run, boundary };
            proof {
                assert(data@.take(i + 1).drop_last() =~= data@.take(i as int));
                lemma_open_bucket_is_short(data@.take(i + 1), arith);
                if run.len() > 0 {
                    lemma_bucket_mean(frequencies, frequencies_of(run), arith);
                    lemma_bucket_mean(values, values_of(run), arith);
                }
            }
            let entry = data[i];
            if less_or_equal(entry.0.bits, LOWEST_BAND) {
                flush(&mut done, &mut frequencies, &mut values, arith);
                done.push(entry);
                proof {
                    run = Seq::empty();
                }
            } else {
                if greater_than(entry.0.bits, boundary) {
                    flush(&mut done, &mut frequencies, &mut values, arith);
                    proof {
                        run = Seq::empty();
                    }
                }
                boundary = next_boundary(boundary, entry.0.bits);
                frequencies.add(entry.0.bits, arith);
                values.add(entry.1.bits, arith);
                proof {
                    let longer = run.push(entry);
                    assert(frequencies_of(longer).drop_last() =~= frequencies_of(run));
                    assert(values_of(longer).drop_last() =~= values_of(run));
                    assert(arith.sum_of(frequencies_of(longer)) == arith.plus(
                        arith.sum_of(frequencies_of(longer).drop_last()),
                        frequencies_of(longer).last(),
                    ));
                    assert(arith.sum_of(values_of(longer)) == arith.plus(
                        arith.sum_of(values_of(longer).drop_last()),
                        values_of(longer).last(),
                    ));
                    run = longer;
                    lemma_bucket_mean(frequencies, frequencies_of(run), arith);
                    lemma_bucket_mean(values, values_of(run), arith);
                }
                if values.n >= shrink_factor(entry.0.bits) {
                    flush(&mut done, &mut frequencies, &mut values, arith);
                    proof {
                        run = Seq::empty();
                    }
                }
            }
            assert((LogBuckets { done: done@, run, boundary }) == state.step(entry, arith));
            i += 1;
        }
        proof {
            assert(data@.take(i as int) =~= data@);
            if run.len() > 0 {
                lemma_bucket_mean(frequencies, frequencies_of(run), arith);
                lemma_bucket_mean(values, values_of(run), arith);
            }
        }
        flush(&mut done, &mut frequencies, &mut values, arith);
        done
    }
}

} // verus!
