//! The arithmetic that the engine asks of a number type.
use vstd::prelude::*;

verus! {

/// A real-number type the fractal engine can compute with.
///
/// Every operation comes in two forms: a specification function that names
/// the value the operation yields, and an executable method that is bound to
/// return exactly that value. Nothing is assumed about the algebra of the
/// operations (they may round), only that each is a function of its
/// operands.
pub trait Scalar: Sized {
    /// The number that stands for the non-negative integer `n`.
    spec fn from_u32_spec(n: u32) -> Self;

    /// The sum `self + rhs`, as this type computes it.
    spec fn add_spec(self, rhs: Self) -> Self;

    /// The difference `self - rhs`, as this type computes it.
    spec fn sub_spec(self, rhs: Self) -> Self;

    /// The product `self * rhs`, as this type computes it.
    spec fn mul_spec(self, rhs: Self) -> Self;

    /// The quotient `self / rhs`, as this type computes it.
    spec fn div_spec(self, rhs: Self) -> Self;

    /// The negative `-self`, as this type computes it.
    spec fn neg_spec(self) -> Self;

    /// `self` multiplied by the ratio `num / den` of two counts.
    spec fn scale_spec(self, num: u32, den: u32) -> Self;

    /// Whether `self` is strictly below `rhs`.
    spec fn lt_spec(self, rhs: Self) -> bool;

    /// Whether `self` and `rhs` compare equal.
    spec fn same_spec(self, rhs: Self) -> bool;

    /// The number of bits of precision that `self` carries.
    spec fn prec_spec(self) -> usize;

    /// `self` carried over to `bits` bits of precision, or `None` where the
    /// type does not offer that precision.
    spec fn with_prec_spec(self, bits: usize) -> Option<Self>;

    /// Makes the number that stands for `n`.
    fn from_u32(n: u32) -> (r: Self)
        ensures
            r == Self::from_u32_spec(n),
    ;

    /// Computes `self + rhs`.
    fn add(&self, rhs: &Self) -> (r: Self)
        ensures
            r == self.add_spec(*rhs),
    ;

    /// Computes `self - rhs`.
    fn sub(&self, rhs: &Self) -> (r: Self)
        ensures
            r == self.sub_spec(*rhs),
    ;

    /// Computes `self * rhs`.
    fn mul(&self, rhs: &Self) -> (r: Self)
        ensures
            r == self.mul_spec(*rhs),
    ;

    /// Computes `self / rhs`.
    fn div(&self, rhs: &Self) -> (r: Self)
        ensures
            r == self.div_spec(*rhs),
    ;

    /// Computes `-self`.
    fn neg(&self) -> (r: Self)
        ensures
            r == self.neg_spec(),
    ;

    /// Computes `self * num / den`.
    fn scale(&self, num: u32, den: u32) -> (r: Self)
        requires
            den > 0,
        ensures
            r == self.scale_spec(num, den),
    ;

    /// Tests `self < rhs`.
    fn lt(&self, rhs: &Self) -> (b: bool)
        ensures
            b == self.lt_spec(*rhs),
    ;

    /// Tests `self == rhs`.
    fn same(&self, rhs: &Self) -> (b: bool)
        ensures
            b == self.same_spec(*rhs),
    ;

    /// The precision of `self` in bits.
    fn prec(&self) -> (bits: usize)
        ensures
            bits == self.prec_spec(),
    ;

    /// Carries `self` over to `bits` bits of precision. A number that comes
    /// back carries exactly that many, and it keeps its value where the
    /// precision was not lowered: it compares equal to `self`, provided `self`
    /// compares equal to itself.
    fn with_prec(&self, bits: usize) -> (r: Option<Self>)
        ensures
            r == self.with_prec_spec(bits),
            r matches Some(x) ==> x.prec_spec() == bits,
            r matches Some(x) ==> (bits >= self.prec_spec() && self.same_spec(*self)
                ==> x.same_spec(*self)),
    ;

    /// A second copy of the same number.
    fn dup(&self) -> (r: Self)
        ensures
            r == *self,
    ;
}

/// Whether `new` has the value of `old` where `bits` is no less than the
/// precision of `old`: the two compare equal, provided `old` compares equal to
/// itself.
pub open spec fn keeps_value<T: Scalar>(old: T, new: T, bits: usize) -> bool {
    bits >= old.prec_spec() && old.same_spec(old) ==> new.same_spec(old)
}

/// A number type that comes with a cheaper, less precise companion.
///
/// The perturbation engine computes one orbit in the precise type and all
/// others in the companion, moving values between the two with `narrow` and
/// `widen`.
pub trait Approx: Scalar {
    /// The companion type.
    type Low: Scalar;

    /// The companion number nearest to `self`, as this type computes it.
    spec fn narrow_spec(self) -> Self::Low;

    /// The precise number that stands for `low`.
    spec fn widen_spec(low: Self::Low) -> Self;

    /// Rounds `self` to the companion type.
    fn narrow(&self) -> (r: Self::Low)
        ensures
            r == self.narrow_spec(),
    ;

    /// Takes `low` into the precise type.
    fn widen(low: &Self::Low) -> (r: Self)
        ensures
            r == Self::widen_spec(*low),
    ;
}

} // verus!
