//! The arithmetic that the library leaves to its caller.
//!
//! Whatever rounds (a sum, a quotient, a square root) is computed by a
//! function that the caller hands in: it takes one [`Operation`] on encoded
//! numbers and gives back the encoded result. The library decides which
//! operations are performed, on which operands and in which order, and its
//! contracts state every computed number as a term over that function.
//!
//! A caller on a machine with IEEE-754 arithmetic performs
//! `Operation::Add(a, b)` by decoding `a` and `b`, adding the two numbers
//! and encoding the sum, and the other operations likewise.
use crate::ieee::ZERO;
use vstd::prelude::*;

verus! {

/// One step of floating-point arithmetic on encoded single-precision
/// numbers. The operands are bit patterns, and so is the result.
pub enum Operation {
    /// The rounded sum of the two numbers.
    Add(u32, u32),
    /// The rounded difference: the first number less the second.
    Sub(u32, u32),
    /// The rounded product of the two numbers.
    Mul(u32, u32),
    /// The rounded quotient: the first number over the second.
    Div(u32, u32),
    /// The rounded square root.
    Sqrt(u32),
    /// The logarithm to the base 10.
    Log10(u32),
    /// The first number raised to the power of the second.
    Pow(u32, u32),
    /// The cosine of an angle in radians.
    Cos(u32),
    /// The number nearest to an integer.
    FromInt(u64),
}

/// A function that performs [`Operation`]s, together with what the library
/// needs to know of it: see [`Arithmetic::wf`].
pub struct Arithmetic<A: Fn(Operation) -> u32> {
    /// The function that computes.
    pub unit: A,
}

impl<A: Fn(Operation) -> u32> Arithmetic<A> {
    /// The function accepts every operation, and an operation has one
    /// result only: asked twice, the function answers the same.
    pub open spec fn wf(&self) -> bool {
        &&& forall|op: Operation| call_requires(self.unit, (op,))
        &&& forall|op: Operation, r1: u32, r2: u32|
            #[trigger] call_ensures(self.unit, (op,), r1) && #[trigger] call_ensures(
                self.unit,
                (op,),
                r2,
            ) ==> r1 == r2
    }

    /// The result of an operation.
    pub open spec fn result(&self, op: Operation) -> u32 {
        choose|r: u32| call_ensures(self.unit, (op,), r)
    }

    /// Wraps a function that computes.
    pub fn new(unit: A) -> (r: Self)
        ensures
            r.unit == unit,
    {
        Arithmetic { unit }
    }

    /// Has the function compute one operation.
    pub fn perform(&self, op: Operation) -> (r: u32)
        requires
            self.wf(),
        ensures
            r == self.result(op),
    {
        (self.unit)(op)
    }

    /// `a + b`.
    pub open spec fn spec_plus(&self, a: u32, b: u32) -> u32 {
        self.result(Operation::Add(a, b))
    }

    /// `a + b`.
    #[verifier::when_used_as_spec(spec_plus)]
    pub fn plus(&self, a: u32, b: u32) -> (r: u32)
        requires
            self.wf(),
        ensures
            r == self.spec_plus(a, b),
    {
        self.perform(Operation::Add(a, b))
    }

    /// `a - b`.
    pub open spec fn spec_minus(&self, a: u32, b: u32) -> u32 {
        self.result(Operation::Sub(a, b))
    }

    /// `a - b`.
    #[verifier::when_used_as_spec(spec_minus)]
    pub fn minus(&self, a: u32, b: u32) -> (r: u32)
        requires
            self.wf(),
        ensures
            r == self.spec_minus(a, b),
    {
        self.perform(Operation::Sub(a, b))
    }

    /// `a * b`.
    pub open spec fn spec_times(&self, a: u32, b: u32) -> u32 {
        self.result(Operation::Mul(a, b))
    }

    /// `a * b`.
    #[verifier::when_used_as_spec(spec_times)]
    pub fn times(&self, a: u32, b: u32) -> (r: u32)
        requires
            self.wf(),
        ensures
            r == self.spec_times(a, b),
    {
        self.perform(Operation::Mul(a, b))
    }

    /// `a / b`.
    pub open spec fn spec_over(&self, a: u32, b: u32) -> u32 {
        self.result(Operation::Div(a, b))
    }

    /// `a / b`.
    #[verifier::when_used_as_spec(spec_over)]
    pub fn over(&self, a: u32, b: u32) -> (r: u32)
        requires
            self.wf(),
        ensures
            r == self.spec_over(a, b),
    {
        self.perform(Operation::Div(a, b))
    }

    /// The square root of `a`.
    pub open spec fn spec_sqrt(&self, a: u32) -> u32 {
        self.result(Operation::Sqrt(a))
    }

    /// The square root of `a`.
    #[verifier::when_used_as_spec(spec_sqrt)]
    pub fn sqrt(&self, a: u32) -> (r: u32)
        requires
            self.wf(),
        ensures
            r == self.spec_sqrt(a),
    {
        self.perform(Operation::Sqrt(a))
    }

    /// The logarithm of `a` to the base 10.
    pub open spec fn spec_log10(&self, a: u32) -> u32 {
        self.result(Operation::Log10(a))
    }

    /// The logarithm of `a` to the base 10.
    #[verifier::when_used_as_spec(spec_log10)]
    pub fn log10(&self, a: u32) -> (r: u32)
        requires
            self.wf(),
        ensures
            r == self.spec_log10(a),
    {
        self.perform(Operation::Log10(a))
    }

    /// `a` raised to the power of `b`.
    pub open spec fn spec_pow(&self, a: u32, b: u32) -> u32 {
        self.result(Operation::Pow(a, b))
    }

    /// `a` raised to the power of `b`.
    #[verifier::when_used_as_spec(spec_pow)]
    pub fn pow(&self, a: u32, b: u32) -> (r: u32)
        requires
            self.wf(),
        ensures
            r == self.spec_pow(a, b),
    {
        self.perform(Operation::Pow(a, b))
    }

    /// The cosine of the angle `a`.
    pub open spec fn spec_cos(&self, a: u32) -> u32 {
        self.result(Operation::Cos(a))
    }

    /// The cosine of the angle `a`.
    #[verifier::when_used_as_spec(spec_cos)]
    pub fn cos(&self, a: u32) -> (r: u32)
        requires
            self.wf(),
        ensures
            r == self.spec_cos(a),
    {
        self.perform(Operation::Cos(a))
    }

    /// The number nearest to the integer `n`.
    pub open spec fn spec_from_int(&self, n: u64) -> u32 {
        self.result(Operation::FromInt(n))
    }

    /// The number nearest to the integer `n`.
    #[verifier::when_used_as_spec(spec_from_int)]
    pub fn from_int(&self, n: u64) -> (r: u32)
        requires
            self.wf(),
        ensures
            r == self.spec_from_int(n),
    {
        self.perform(Operation::FromInt(n))
    }

    /// The sum of a sequence of numbers: they are added one after the other,
    /// from the first to the last, to a sum that starts at `0.0`.
    pub open spec fn sum_of(&self, values: Seq<u32>) -> u32
        decreases values.len(),
    {
        if values.len() == 0 {
            ZERO
        } else {
            self.spec_plus(self.sum_of(values.drop_last()), values.last())
        }
    }

    /// The sum of a sequence of numbers: they are added one after the other,
    /// from the first to the last, to a sum that starts at `0.0`.
    pub fn sum(&self, values: &Vec<u32>) -> (r: u32)
        requires
            self.wf(),
        ensures
            r == self.sum_of(values@),
    {
        let mut acc: u32 = ZERO;
        let mut i: usize = 0;
        while i < values.len()
            invariant
                self.wf(),
                i <= values.len(),
                acc == self.sum_of(values@.take(i as int)),
            decreases values.len() - i,
        {
            assert(values@.take(i + 1).drop_last() =~= values@.take(i as int));
            acc = self.plus(acc, values[i]);
            i += 1;
        }
        assert(values@.take(i as int) =~= values@);
        acc
    }

    /// The arithmetic mean of a sequence of numbers: their sum over their
    /// count.
    pub open spec fn mean_of(&self, values: Seq<u32>) -> u32 {
        self.spec_over(self.sum_of(values), self.spec_from_int(values.len() as u64))
    }

    /// The arithmetic mean of a sequence of numbers: their sum over their
    /// count.
    pub fn mean(&self, values: &Vec<u32>) -> (r: u32)
        requires
            self.wf(),
        ensures
            r == self.mean_of(values@),
    {
        let sum = self.sum(values);
        self.over(sum, self.from_int(values.len() as u64))
    }
}

} // verus!
