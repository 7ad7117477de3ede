//! Scalars as expressions.
//!
//! The library decides which arithmetic is done and in which order. It does not
//! do the arithmetic: a scalar is the expression that computes it, over decimal
//! literals and numbers given by their bits.
use crate::text::subtext;
use vstd::prelude::*;

verus! {

/// The operations on one number.
#[derive(Clone, Copy, PartialEq, Eq, Debug)]
pub enum UnaryOp {
    Neg,
    Sin,
    Cos,
    Tan,
    Asin,
    Acos,
    Atan,
    Abs,
    Round,
    Ceil,
    Floor,
    Ln,
    Sqrt,
    /// Degrees to radians.
    ToRadians,
    /// Radians to degrees.
    ToDegrees,
}

/// The operations on two numbers. The first operand is the left one: the
/// dividend of `Div`, the base of `Pow`, the number whose logarithm `Log` takes.
#[derive(Clone, Copy, PartialEq, Eq, Debug)]
pub enum BinaryOp {
    Add,
    Mul,
    Div,
    Pow,
    /// The logarithm of the first operand to the base of the second.
    Log,
}

/// The bits of the binary64 number 0.
pub const ZERO: u64 = 0;

/// The bits of the binary64 number 1.
pub const ONE: u64 = 0x3FF0_0000_0000_0000;

/// The bits of the binary64 number 2.
pub const TWO: u64 = 0x4000_0000_0000_0000;

/// The bits of the binary64 number -1.
pub const MINUS_ONE: u64 = 0xBFF0_0000_0000_0000;

/// The bits of the binary64 number nearest to the circle constant pi.
pub const PI: u64 = 0x4009_21FB_5444_2D18;

/// The bits of the binary64 number nearest to Euler's number.
pub const E: u64 = 0x4005_BF0A_8B14_5769;

/// The bits of the binary64 number nearest to twice pi.
pub const TAU: u64 = 0x4019_21FB_5444_2D18;

/// A scalar, as the expression that computes it.
#[derive(PartialEq, Eq, Debug)]
pub enum Expr {
    /// A decimal literal, by its text.
    Literal(Vec<char>),
    /// A binary64 number, by its bits.
    Bits(u64),
    Unary(UnaryOp, Box<Expr>),
    Binary(BinaryOp, Box<Expr>, Box<Expr>),
}

/// The mathematical form of an [`Expr`].
pub enum Term {
    Literal(Seq<char>),
    Bits(u64),
    Unary(UnaryOp, Box<Term>),
    Binary(BinaryOp, Box<Term>, Box<Term>),
}

impl Term {
    pub open spec fn unary(op: UnaryOp, a: Term) -> Term {
        Term::Unary(op, Box::new(a))
    }

    pub open spec fn binary(op: BinaryOp, a: Term, b: Term) -> Term {
        Term::Binary(op, Box::new(a), Box::new(b))
    }
}

impl View for Expr {
    type V = Term;

    open spec fn view(&self) -> Term {
        self.term()
    }
}

impl Expr {
    /// The term that the expression writes.
    pub open spec fn term(&self) -> Term
        decreases self,
    {
        match self {
            Expr::Literal(t) => Term::Literal(t@),
            Expr::Bits(b) => Term::Bits(*b),
            Expr::Unary(op, a) => Term::unary(*op, a.term()),
            Expr::Binary(op, a, b) => Term::binary(*op, a.term(), b.term()),
        }
    }

    /// The expression that applies `op` to `a`.
    pub fn unary(op: UnaryOp, a: Expr) -> (r: Expr)
        ensures
            r@ == Term::unary(op, a@),
    {
        Expr::Unary(op, Box::new(a))
    }

    /// The expression that applies `op` to `a` and `b`.
    pub fn binary(op: BinaryOp, a: Expr, b: Expr) -> (r: Expr)
        ensures
            r@ == Term::binary(op, a@, b@),
    {
        Expr::Binary(op, Box::new(a), Box::new(b))
    }

    /// A copy of the expression.
    pub fn duplicate(&self) -> (r: Expr)
        ensures
            r@ == self@,
        decreases self,
    {
        match self {
            Expr::Literal(t) => {
                assert(t@.subrange(0, t@.len() as int) == t@);
                Expr::Literal(subtext(t, 0, t.len()))
            },
            Expr::Bits(b) => Expr::Bits(*b),
            Expr::Unary(op, a) => Expr::Unary(*op, Box::new(a.duplicate())),
            Expr::Binary(op, a, b) => Expr::Binary(
                *op,
                Box::new(a.duplicate()),
                Box::new(b.duplicate()),
            ),
        }
    }
}

impl Clone for Expr {
    fn clone(&self) -> (r: Expr)
        ensures
            r@ == self@,
    {
        self.duplicate()
    }
}

} // verus!
