//! Small helpers.
use crate::arithmetic::{Arithmetic, Operation};
use crate::ieee::ZERO;
use vstd::prelude::*;

verus! {

/// Gathers numbers one by one and tells their mean: it holds the sum of the
/// numbers added so far and their count.
#[derive(Debug)]
pub struct AverageBucket {
    /// The sum of the numbers, as an encoded number.
    pub sum: u32,
    /// The count of the numbers.
    pub n: u64,
}

impl AverageBucket {
    /// An empty bucket.
    pub fn new() -> (r: Self)
        ensures
            r.sum == ZERO,
            r.n == 0,
    {
        AverageBucket { sum: ZERO, n: 0 }
    }

    /// Adds a number to the bucket.
    pub fn add<A: Fn(Operation) -> u32>(&mut self, num: u32, arith: &Arithmetic<A>)
        requires
            old(self).n < u64::MAX,
            arith.wf(),
        ensures
            final(self).sum == arith.plus(old(self).sum, num),
            final(self).n == old(self).n + 1,
    {
        self.sum = arith.plus(self.sum, num);
        self.n = self.n + 1;
    }

    /// The mean of the numbers in the bucket: their sum over their count,
    /// and `0.0` for an empty bucket.
    pub open spec fn spec_avg<A: Fn(Operation) -> u32>(&self, arith: &Arithmetic<A>) -> u32 {
        if self.n == 0 {
            ZERO
        } else {
            arith.over(self.sum, arith.from_int(self.n))
        }
    }

    /// The mean of the numbers in the bucket, and `0.0` for an empty bucket.
    #[verifier::when_used_as_spec(spec_avg)]
    pub fn avg<A: Fn(Operation) -> u32>(&self, arith: &Arithmetic<A>) -> (r: u32)
        requires
            arith.wf(),
        ensures
            r == self.spec_avg(arith),
    {
        if self.n == 0 {
            ZERO
        } else {
            arith.over(self.sum, arith.from_int(self.n))
        }
    }

    /// Empties the bucket.
    pub fn reset(&mut self)
        ensures
            final(self).sum == ZERO,
            final(self).n == 0,
    {
        self.sum = ZERO;
        self.n = 0;
    }
}

/// A bucket to which the numbers of a sequence were added one after the
/// other tells the mean of the sequence.
pub proof fn lemma_bucket_mean<A: Fn(Operation) -> u32>(
    bucket: AverageBucket,
    values: Seq<u32>,
    arith: &Arithmetic<A>,
)
    requires
        values.len() > 0,
        values.len() <= u64::MAX,
        bucket.sum == arith.sum_of(values),
        bucket.n == values.len(),
    ensures
        bucket.spec_avg(arith) == arith.mean_of(values),
{
}

} // verus!
