//! The scalar arithmetic that the engine computes with.

use vstd::prelude::*;

verus! {

/// A two-operand scalar operation.
#[derive(Clone, Copy, Debug, PartialEq, Eq)]
pub enum BinaryOp {
    Add,
    Sub,
    Mul,
    Div,
}

/// A one-operand scalar operation.
#[derive(Clone, Copy, Debug, PartialEq, Eq)]
pub enum UnaryOp {
    Neg,
    Sin,
    Cos,
    Sqrt,
    Exp,
    Ln,
}

/// A scalar arithmetic: the constants the chain rule needs and the two
/// functions that carry out the operations.
///
/// Nothing is assumed of the functions but that they can be called on every
/// operand. In particular they need not be deterministic: contracts speak of
/// a value as *an outcome* of an operation, never as *the* outcome.
pub struct Arithmetic<T, B, U> {
    /// The additive identity, the coefficient read for an absent source.
    pub zero: T,
    /// The multiplicative identity, the derivative of a source by itself.
    pub one: T,
    /// The additive inverse of `one`, the sign of a subtracted operand.
    pub minus_one: T,
    /// One half, the numerator of the derivative of the square root.
    pub half: T,
    /// Carries out a [`BinaryOp`] on two operands.
    pub binary: B,
    /// Carries out a [`UnaryOp`] on one operand.
    pub unary: U,
}

impl<T: Copy, B: Fn(BinaryOp, T, T) -> T, U: Fn(UnaryOp, T) -> T> Arithmetic<T, B, U> {
    /// Every operation accepts every operand.
    pub open spec fn total(&self) -> bool {
        &&& forall|op: BinaryOp, a: T, b: T| call_requires(self.binary, (op, a, b))
        &&& forall|op: UnaryOp, a: T| call_requires(self.unary, (op, a))
    }

    /// `r` is an outcome of `a op b`.
    pub open spec fn computes(&self, op: BinaryOp, a: T, b: T, r: T) -> bool {
        call_ensures(self.binary, (op, a, b), r)
    }

    /// `r` is an outcome of `op(a)`.
    pub open spec fn maps(&self, op: UnaryOp, a: T, r: T) -> bool {
        call_ensures(self.unary, (op, a), r)
    }

    /// `r` is the only outcome of `a op b`.
    pub open spec fn computes_only(&self, op: BinaryOp, a: T, b: T, r: T) -> bool {
        forall|other: T| #[trigger] self.computes(op, a, b, other) ==> other == r
    }

    /// `r` is the only outcome of `op(a)`.
    pub open spec fn maps_only(&self, op: UnaryOp, a: T, r: T) -> bool {
        forall|other: T| #[trigger] self.maps(op, a, other) ==> other == r
    }

    /// No operation has two outcomes on the same operands.
    pub open spec fn deterministic(&self) -> bool {
        &&& forall|op: BinaryOp, a: T, b: T, r1: T, r2: T|
            #![trigger self.computes(op, a, b, r1), self.computes(op, a, b, r2)]
            self.computes(op, a, b, r1) && self.computes(op, a, b, r2) ==> r1 == r2
        &&& forall|op: UnaryOp, a: T, r1: T, r2: T|
            #![trigger self.maps(op, a, r1), self.maps(op, a, r2)]
            self.maps(op, a, r1) && self.maps(op, a, r2) ==> r1 == r2
    }

    /// The arithmetic is exact on its own constants: products and sums of
    /// zero, one and minus one have the one outcome that the constants'
    /// names promise, and so has the square root of zero.
    pub open spec fn exact_on_constants(&self) -> bool {
        &&& self.computes_only(BinaryOp::Mul, self.one, self.one, self.one)
        &&& self.computes_only(BinaryOp::Mul, self.one, self.minus_one, self.minus_one)
        &&& self.computes_only(BinaryOp::Mul, self.minus_one, self.minus_one, self.one)
        &&& self.computes_only(BinaryOp::Mul, self.zero, self.zero, self.zero)
        &&& self.computes_only(BinaryOp::Add, self.zero, self.zero, self.zero)
        &&& self.computes_only(BinaryOp::Add, self.zero, self.one, self.one)
        &&& self.computes_only(BinaryOp::Add, self.zero, self.minus_one, self.minus_one)
        &&& self.computes_only(BinaryOp::Add, self.one, self.minus_one, self.zero)
        &&& self.maps_only(UnaryOp::Sqrt, self.zero, self.zero)
    }

    /// Scaling `sigma` by one leaves it as it is, and adding its square to
    /// zero leaves the square as it is.
    pub open spec fn exact_on_scale(&self, sigma: T) -> bool {
        &&& self.computes_only(BinaryOp::Mul, self.one, sigma, sigma)
        &&& forall|square: T| #[trigger]
            self.computes(BinaryOp::Mul, sigma, sigma, square) ==> self.computes_only(
                BinaryOp::Add,
                self.zero,
                square,
                square,
            )
    }

    /// The square root of the square of `sigma` is `sigma`.
    pub open spec fn recovers(&self, sigma: T) -> bool {
        forall|square: T| #[trigger]
            self.computes(BinaryOp::Mul, sigma, sigma, square) ==> self.maps_only(
                UnaryOp::Sqrt,
                square,
                sigma,
            )
    }

    /// Bundles constants and operations into an arithmetic.
    pub fn new(zero: T, one: T, minus_one: T, half: T, binary: B, unary: U) -> (ar: Self)
        ensures
            ar.zero == zero,
            ar.one == one,
            ar.minus_one == minus_one,
            ar.half == half,
            ar.binary == binary,
            ar.unary == unary,
    {
        Arithmetic { zero, one, minus_one, half, binary, unary }
    }

    /// Carries out `a op b`.
    pub fn apply(&self, op: BinaryOp, a: T, b: T) -> (r: T)
        requires
            self.total(),
        ensures
            self.computes(op, a, b, r),
    {
        (self.binary)(op, a, b)
    }

    /// Carries out `op(a)`.
    pub fn apply_unary(&self, op: UnaryOp, a: T) -> (r: T)
        requires
            self.total(),
        ensures
            self.maps(op, a, r),
    {
        (self.unary)(op, a)
    }
}

} // verus!
