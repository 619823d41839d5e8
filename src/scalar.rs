//! The arithmetic of field values.
use vstd::prelude::*;

verus! {

/// A real-number type in which field values, the time step and the
/// diffusion rate are held. Each operation is a function of its arguments
/// alone, named by the matching spec function.
pub trait Scalar: Copy + Sized {
    spec fn spec_zero() -> Self;

    spec fn spec_one() -> Self;

    spec fn spec_plus(self, other: Self) -> Self;

    spec fn spec_minus(self, other: Self) -> Self;

    spec fn spec_times(self, other: Self) -> Self;

    spec fn spec_over(self, other: Self) -> Self;

    spec fn spec_from_coord(c: u16) -> Self;

    spec fn spec_floor(self) -> i64;

    spec fn spec_ceil(self) -> i64;

    /// The additive identity.
    fn zero() -> (r: Self)
        ensures
            r == Self::spec_zero(),
    ;

    /// The multiplicative identity.
    fn one() -> (r: Self)
        ensures
            r == Self::spec_one(),
    ;

    /// `self + other`.
    fn plus(self, other: Self) -> (r: Self)
        ensures
            r == self.spec_plus(other),
    ;

    /// `self - other`.
    fn minus(self, other: Self) -> (r: Self)
        ensures
            r == self.spec_minus(other),
    ;

    /// `self * other`.
    fn times(self, other: Self) -> (r: Self)
        ensures
            r == self.spec_times(other),
    ;

    /// `self / other`.
    fn over(self, other: Self) -> (r: Self)
        ensures
            r == self.spec_over(other),
    ;

    /// The lattice coordinate `c` as a value.
    fn from_coord(c: u16) -> (r: Self)
        ensures
            r == Self::spec_from_coord(c),
    ;

    /// The largest integer not above `self`, saturated into `i64`.
    fn floor_coord(self) -> (r: i64)
        ensures
            r == self.spec_floor(),
    ;

    /// The smallest integer not below `self`, saturated into `i64`.
    fn ceil_coord(self) -> (r: i64)
        ensures
            r == self.spec_ceil(),
    ;
}

} // verus!
