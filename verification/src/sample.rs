//! The capability set a sample type must offer.
//!
//! The buffer is generic over its sample type: a copyable value with a zero,
//! elementwise arithmetic, and a conversion from a channel count.  The
//! arithmetic itself is a property of each implementation; the buffer's
//! contracts state exactly which operation was applied to which samples, in
//! terms of the implementation's own spec functions.

use vstd::prelude::*;

verus! {

/// A sample value: copyable, with a zero, elementwise arithmetic, and a
/// conversion from a channel count.
///
/// Each spec function names the value its executable partner returns; the
/// buffer's contracts are stated over those names.
pub trait Sample: Copy + Sized {
    /// The silence value.
    spec fn zero_spec() -> Self;

    /// What addition returns.
    spec fn add_spec(self, rhs: Self) -> Self;

    /// What subtraction returns.
    spec fn sub_spec(self, rhs: Self) -> Self;

    /// What multiplication returns.
    spec fn mul_spec(self, rhs: Self) -> Self;

    /// What division returns.
    spec fn div_spec(self, rhs: Self) -> Self;

    /// What negation returns.
    spec fn neg_spec(self) -> Self;

    /// What the conversion from a channel count returns.
    spec fn from_count_spec(n: usize) -> Self;

    /// The silence value, used to zero-initialise and silence buffers.
    fn zero() -> (r: Self)
        ensures
            r == Self::zero_spec(),
    ;

    /// Elementwise addition.
    fn add(self, rhs: Self) -> (r: Self)
        ensures
            r == self.add_spec(rhs),
    ;

    /// Elementwise subtraction.
    fn sub(self, rhs: Self) -> (r: Self)
        ensures
            r == self.sub_spec(rhs),
    ;

    /// Elementwise multiplication.
    fn mul(self, rhs: Self) -> (r: Self)
        ensures
            r == self.mul_spec(rhs),
    ;

    /// Elementwise division.
    fn div(self, rhs: Self) -> (r: Self)
        ensures
            r == self.div_spec(rhs),
    ;

    /// Elementwise negation.
    fn neg(self) -> (r: Self)
        ensures
            r == self.neg_spec(),
    ;

    /// The sample value standing for a channel count, the divisor of the
    /// channel-merging average.
    fn from_count(n: usize) -> (r: Self)
        ensures
            r == Self::from_count_spec(n),
    ;
}

/// A fallible conversion into `Self` from another sample type, the capability
/// behind the type-converting copy.
///
/// `convertible_spec` says on which source values the conversion succeeds;
/// `convert_spec` names the value it then returns.
pub trait FromSample<S: Sample>: Sample {
    /// Whether `s` is representable in `Self`.
    spec fn convertible_spec(s: S) -> bool;

    /// What the conversion returns where it succeeds.
    spec fn convert_spec(s: S) -> Self;

    /// Converts `s` into `Self`, or reports that `s` is not representable.
    fn try_convert(s: S) -> (r: Option<Self>)
        ensures
            r is Some <==> Self::convertible_spec(s),
            r is Some ==> r->0 == Self::convert_spec(s),
    ;
}

/// Every sample type converts to itself, unchanged and without failure.
impl<T: Sample> FromSample<T> for T {
    open spec fn convertible_spec(s: T) -> bool {
        true
    }

    open spec fn convert_spec(s: T) -> T {
        s
    }

    fn try_convert(s: T) -> (r: Option<T>) {
        Some(s)
    }
}

} // verus!
