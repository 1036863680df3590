//! The coefficient blocks of the two kinds of component.

use crate::math::{Matrix2x1, Matrix2x2};
use crate::scalar::Scalar;
use vstd::prelude::*;

verus! {

/// The block of a branch of admittance `y`: `y` on the diagonal and `-y` off
/// it.
pub open spec fn spec_branch_stamp<T: Scalar>(y: T) -> Matrix2x2<T> {
    Matrix2x2 { m11: y, m12: y.spec_neg(), m21: y.spec_neg(), m22: y }
}

/// The column of an injection with set point `i`: `i` leaves the first
/// terminal, `-i` leaves the second.
pub open spec fn spec_injection_stamp<T: Scalar>(i: T) -> Matrix2x1<T> {
    Matrix2x1 { x: i, y: i.spec_neg() }
}

pub fn branch_stamp<T: Scalar>(y: T) -> (stamp: Matrix2x2<T>)
    ensures
        stamp == spec_branch_stamp(y),
{
    let minus_y = y.neg();
    Matrix2x2::new(y, minus_y, minus_y, y)
}

pub fn injection_stamp<T: Scalar>(i: T) -> (stamp: Matrix2x1<T>)
    ensures
        stamp == spec_injection_stamp(i),
{
    Matrix2x1::new(i, i.neg())
}

/// A branch stamp is symmetric, and each of its rows cancels: the current
/// that leaves one terminal enters the other.
pub proof fn lemma_branch_stamp_symmetric<T: Scalar>(y: T)
    ensures
        spec_branch_stamp(y).m12 == spec_branch_stamp(y).m21,
        spec_branch_stamp(y).m11 == spec_branch_stamp(y).m22,
        spec_branch_stamp(y).m12.spec_neg() == spec_branch_stamp(y).m11,
{
    y.lemma_neg_involutive();
}

} // verus!
