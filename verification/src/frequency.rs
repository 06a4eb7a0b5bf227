//! [`OrderableF32`], an encoded number that can be compared and sorted, and
//! its two uses: [`Frequency`] and [`FrequencyValue`].
use crate::arithmetic::{Arithmetic, Operation};
use crate::ieee::{is_finite, order_key, spec_is_finite, spec_order_key, ZERO};
use core::cmp::Ordering;
use vstd::prelude::*;
use vstd::std_specs::cmp::{PartialEqSpecImpl, PartialOrdSpecImpl};

verus! {

/// A frequency in Hertz.
pub type Frequency = OrderableF32;

/// The value that a spectrum holds for a [`Frequency`], also called its
/// magnitude.
pub type FrequencyValue = OrderableF32;

/// A single-precision number, held by its encoding, with an order that is
/// total: the order of the numbers, with both zeros in one place.
///
/// The type is meant for numbers that are neither NaN nor infinite: to store
/// another one is a programming error, which [`OrderableF32::is_valid`]
/// tells. The order stays total on those too: it places a NaN beyond the
/// infinity of its sign.
#[derive(Debug, Copy, Clone)]
pub struct OrderableF32 {
    /// The encoding of the number.
    pub bits: u32,
}

impl OrderableF32 {
    /// The number with the given encoding.
    pub fn from_bits(bits: u32) -> (r: Self)
        ensures
            r.bits == bits,
    {
        OrderableF32 { bits }
    }

    /// The encoding of the number.
    pub fn val(&self) -> (r: u32)
        ensures
            r == self.bits,
    {
        self.bits
    }

    /// The integer by which the number is ordered.
    pub open spec fn key(&self) -> int {
        spec_order_key(self.bits)
    }

    /// Whether the number is neither a NaN nor infinite.
    pub open spec fn spec_is_valid(&self) -> bool {
        spec_is_finite(self.bits)
    }

    /// Whether the number is neither a NaN nor infinite.
    #[verifier::when_used_as_spec(spec_is_valid)]
    pub fn is_valid(&self) -> (r: bool)
        ensures
            r == self.spec_is_valid(),
    {
        is_finite(self.bits)
    }

    /// How `self` stands to `other` in the order.
    pub open spec fn ordering(&self, other: &Self) -> Ordering {
        if self.key() < other.key() {
            Ordering::Less
        } else if self.key() == other.key() {
            Ordering::Equal
        } else {
            Ordering::Greater
        }
    }

    /// Compares two numbers. Unlike the comparison of IEEE-754 this one
    /// always has an answer.
    pub fn cmp(&self, other: &Self) -> (r: Ordering)
        ensures
            r == self.ordering(other),
    {
        let a = order_key(self.bits);
        let b = order_key(other.bits);
        if a < b {
            Ordering::Less
        } else if a == b {
            Ordering::Equal
        } else {
            Ordering::Greater
        }
    }

    /// The sum of two numbers.
    pub fn plus<A: Fn(Operation) -> u32>(self, other: Self, arith: &Arithmetic<A>) -> (r: Self)
        requires
            arith.wf(),
        ensures
            r.bits == arith.plus(self.bits, other.bits),
    {
        OrderableF32 { bits: arith.plus(self.bits, other.bits) }
    }

    /// The difference of two numbers.
    pub fn minus<A: Fn(Operation) -> u32>(self, other: Self, arith: &Arithmetic<A>) -> (r: Self)
        requires
            arith.wf(),
        ensures
            r.bits == arith.minus(self.bits, other.bits),
    {
        OrderableF32 { bits: arith.minus(self.bits, other.bits) }
    }

    /// The product of two numbers.
    pub fn times<A: Fn(Operation) -> u32>(self, other: Self, arith: &Arithmetic<A>) -> (r: Self)
        requires
            arith.wf(),
        ensures
            r.bits == arith.times(self.bits, other.bits),
    {
        OrderableF32 { bits: arith.times(self.bits, other.bits) }
    }

    /// The quotient of two numbers.
    pub fn over<A: Fn(Operation) -> u32>(self, other: Self, arith: &Arithmetic<A>) -> (r: Self)
        requires
            arith.wf(),
        ensures
            r.bits == arith.over(self.bits, other.bits),
    {
        OrderableF32 { bits: arith.over(self.bits, other.bits) }
    }
}

impl Default for OrderableF32 {
    /// The number `0.0`.
    fn default() -> (r: Self)
        ensures
            r.bits == ZERO,
    {
        OrderableF32 { bits: ZERO }
    }
}

impl PartialEq for OrderableF32 {
    fn eq(&self, other: &Self) -> (r: bool) {
        order_key(self.bits) == order_key(other.bits)
    }
}

impl PartialEqSpecImpl for OrderableF32 {
    open spec fn obeys_eq_spec() -> bool {
        true
    }

    open spec fn eq_spec(&self, other: &Self) -> bool {
        self.key() == other.key()
    }
}

impl PartialOrd for OrderableF32 {
    fn partial_cmp(&self, other: &Self) -> (r: Option<Ordering>) {
        Some(self.cmp(other))
    }
}

impl PartialOrdSpecImpl for OrderableF32 {
    open spec fn obeys_partial_cmp_spec() -> bool {
        true
    }

    open spec fn partial_cmp_spec(&self, other: &Self) -> Option<Ordering> {
        Some(self.ordering(other))
    }
}

/// The order is reflexive, transitive and total, and numbers that stand in
/// the same place are equal: the same number, or the two zeros.
pub proof fn lemma_total_order(a: OrderableF32, b: OrderableF32, c: OrderableF32)
    ensures
        a.ordering(&a) == Ordering::Equal,
        a.ordering(&b) == Ordering::Less <==> b.ordering(&a) == Ordering::Greater,
        a.ordering(&b) == Ordering::Equal <==> b.ordering(&a) == Ordering::Equal,
        a.ordering(&b) != Ordering::Greater && b.ordering(&c) != Ordering::Greater ==> a.ordering(
            &c,
        ) != Ordering::Greater,
        a.ordering(&b) == Ordering::Equal ==> a.bits == b.bits || (a.key() == 0 && b.key() == 0),
{
}

/// On numbers that are not NaN the order is the one of IEEE-754.
pub proof fn lemma_order_is_numeric(a: OrderableF32, b: OrderableF32)
    requires
        !crate::ieee::spec_is_nan(a.bits),
        !crate::ieee::spec_is_nan(b.bits),
    ensures
        a.ordering(&b) == Ordering::Less <==> crate::ieee::spec_less_than(a.bits, b.bits),
        a.ordering(&b) == Ordering::Equal <==> crate::ieee::spec_equal(a.bits, b.bits),
        a.ordering(&b) == Ordering::Greater <==> crate::ieee::spec_greater_than(a.bits, b.bits),
{
}

} // verus!
