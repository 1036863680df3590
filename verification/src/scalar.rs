//! Scalars of the network equations, held by their IEEE 754 bit patterns.

use vstd::prelude::*;

verus! {

/// The sign bit of a binary64 number.
pub const SIGN_MASK: u64 = 0x8000_0000_0000_0000;

/// The bit pattern with the sign bit inverted and every other bit kept.
pub open spec fn flip_sign(bits: u64) -> u64 {
    if bits >= SIGN_MASK {
        (bits - SIGN_MASK) as u64
    } else {
        (bits + SIGN_MASK) as u64
    }
}

/// What the assembly needs of a scalar without rounding: a zero to start from
/// and an exact negation.
pub trait Scalar: Copy {
    /// The additive identity, `+0`.
    spec fn spec_zero() -> Self;

    /// The exact negation.
    spec fn spec_neg(self) -> Self;

    fn zero() -> (z: Self)
        ensures
            z == Self::spec_zero(),
    ;

    fn neg(self) -> (n: Self)
        ensures
            n == self.spec_neg(),
    ;

    /// Negating twice gives the value back, bit for bit.
    proof fn lemma_neg_involutive(self)
        ensures
            self.spec_neg().spec_neg() == self,
    ;
}

/// A binary64 number, identified by its bits. Two values are equal when their
/// bits are, so `+0` and `-0` differ and a NaN equals itself.
#[derive(Clone, Copy, Debug, PartialEq, Eq, Structural)]
pub struct Real64 {
    pub bits: u64,
}

impl Real64 {
    pub fn from_bits(bits: u64) -> (r: Self)
        ensures
            r.bits == bits,
    {
        Real64 { bits }
    }

    pub fn to_bits(self) -> (bits: u64)
        ensures
            bits == self.bits,
    {
        self.bits
    }

    /// Whether the number is `+0` or `-0`.
    pub open spec fn spec_is_zero(self) -> bool {
        self.bits == 0 || self.bits == SIGN_MASK
    }

    pub fn is_zero(self) -> (b: bool)
        ensures
            b == self.spec_is_zero(),
    {
        self.bits == 0 || self.bits == SIGN_MASK
    }
}

impl Scalar for Real64 {
    open spec fn spec_zero() -> Self {
        Real64 { bits: 0 }
    }

    open spec fn spec_neg(self) -> Self {
        Real64 { bits: flip_sign(self.bits) }
    }

    fn zero() -> (z: Self) {
        Real64 { bits: 0 }
    }

    fn neg(self) -> (n: Self) {
        if self.bits >= SIGN_MASK {
            Real64 { bits: self.bits - SIGN_MASK }
        } else {
            Real64 { bits: self.bits + SIGN_MASK }
        }
    }

    proof fn lemma_neg_involutive(self) {
    }
}

/// A complex number with binary64 parts.
#[derive(Clone, Copy, Debug, PartialEq, Eq, Structural)]
pub struct Complex64 {
    pub re: Real64,
    pub im: Real64,
}

impl Complex64 {
    pub fn new(re: Real64, im: Real64) -> (c: Self)
        ensures
            c.re == re,
            c.im == im,
    {
        Complex64 { re, im }
    }
}

impl Scalar for Complex64 {
    open spec fn spec_zero() -> Self {
        Complex64 { re: Real64::spec_zero(), im: Real64::spec_zero() }
    }

    open spec fn spec_neg(self) -> Self {
        Complex64 { re: self.re.spec_neg(), im: self.im.spec_neg() }
    }

    fn zero() -> (z: Self) {
        Complex64 { re: Real64::zero(), im: Real64::zero() }
    }

    fn neg(self) -> (n: Self) {
        Complex64 { re: self.re.neg(), im: self.im.neg() }
    }

    proof fn lemma_neg_involutive(self) {
    }
}

/// Whatever the caller-supplied unary operation `f` returns is the value of
/// the function `g`.
pub open spec fn computes1<X, Z, F: Fn(X) -> Z>(f: F, g: spec_fn(X) -> Z) -> bool {
    forall|x: X, z: Z| #[trigger] f.ensures((x,), z) ==> z == g(x)
}

/// A caller-supplied binary operation accepts every pair of arguments.
pub open spec fn total2<X, Y, Z, F: Fn(X, Y) -> Z>(f: F) -> bool {
    forall|x: X, y: Y| #[trigger] f.requires((x, y))
}

/// Whatever the caller-supplied binary operation `f` returns is the value of
/// the function `g`.
pub open spec fn computes2<X, Y, Z, F: Fn(X, Y) -> Z>(f: F, g: spec_fn(X, Y) -> Z) -> bool {
    forall|x: X, y: Y, z: Z| #[trigger] f.ensures((x, y), z) ==> z == g(x, y)
}

} // verus!
