//! The values of the calculator: scalars and flat vectors.
use crate::calculator::expr::{BinaryOp, Expr, Term, UnaryOp, ONE};
use core::ops::{Add, Div, Mul, Neg};
use vstd::prelude::*;
use vstd::std_specs::ops::{AddSpecImpl, DivSpecImpl, MulSpecImpl, NegSpecImpl};
use vstd::string::StringExecFns;

verus! {

/// A value: one scalar, or a vector of scalars. A vector holds scalars only,
/// so vectors are flat.
#[derive(Debug, PartialEq)]
pub enum NumType {
    Scalar(Expr),
    Vector(Vec<Expr>),
}

/// The mathematical form of a [`NumType`].
pub enum Value {
    Scalar(Term),
    Vector(Seq<Term>),
}

/// The terms of a list of expressions.
pub open spec fn terms(v: Seq<Expr>) -> Seq<Term> {
    Seq::new(v.len(), |i: int| v[i]@)
}

impl View for NumType {
    type V = Value;

    open spec fn view(&self) -> Value {
        match self {
            NumType::Scalar(e) => Value::Scalar(e@),
            NumType::Vector(v) => Value::Vector(terms(v@)),
        }
    }
}

impl Value {
    /// `op` on two values, the operands in the order in which they stand. Two
    /// scalars give a scalar. A vector and a scalar give the vector of `op` on
    /// each component and the scalar. A scalar and a vector give the vector of
    /// `op` on the scalar and each component: 1 divided by a vector is the
    /// vector of the inverses. Two vectors give a vector as long as the first:
    /// `op` on the components at the same place, with 1 in place of each
    /// component that the second vector lacks.
    pub open spec fn combine(self, op: BinaryOp, rhs: Value) -> Value {
        match (self, rhs) {
            (Value::Scalar(l), Value::Scalar(r)) => Value::Scalar(Term::binary(op, l, r)),
            (Value::Vector(v), Value::Scalar(n)) => Value::Vector(
                Seq::new(v.len(), |i: int| Term::binary(op, v[i], n)),
            ),
            (Value::Scalar(n), Value::Vector(v)) => Value::Vector(
                Seq::new(v.len(), |i: int| Term::binary(op, n, v[i])),
            ),
            (Value::Vector(v), Value::Vector(w)) => Value::Vector(
                Seq::new(
                    v.len(),
                    |i: int|
                        Term::binary(
                            op,
                            v[i],
                            if i < w.len() {
                                w[i]
                            } else {
                                Term::Bits(ONE)
                            },
                        ),
                ),
            ),
        }
    }

    /// `op` on a scalar, or on each component of a vector.
    pub open spec fn map(self, op: UnaryOp) -> Value {
        match self {
            Value::Scalar(s) => Value::Scalar(Term::unary(op, s)),
            Value::Vector(v) => Value::Vector(Seq::new(v.len(), |i: int| Term::unary(op, v[i]))),
        }
    }
}

impl NumType {
    /// A copy of the value.
    pub fn duplicate(&self) -> (r: NumType)
        ensures
            r@ == self@,
    {
        match self {
            NumType::Scalar(e) => NumType::Scalar(e.duplicate()),
            NumType::Vector(v) => {
                let mut out: Vec<Expr> = Vec::new();
                let mut i: usize = 0;
                while i < v.len()
                    invariant
                        i <= v.len(),
                        out.len() == i,
                        forall|k: int| 0 <= k < i ==> out@[k]@ == v@[k]@,
                    decreases v.len() - i,
                {
                    out.push(v[i].duplicate());
                    i += 1;
                }
                assert(terms(out@) =~= terms(v@));
                NumType::Vector(out)
            },
        }
    }

    /// `op` on the scalar, or on each component of the vector.
    pub fn map(self, op: UnaryOp) -> (r: NumType)
        ensures
            r@ == self@.map(op),
    {
        match self {
            NumType::Scalar(s) => NumType::Scalar(Expr::unary(op, s)),
            NumType::Vector(v) => {
                let ghost lhs = terms(v@);
                let mut out: Vec<Expr> = Vec::new();
                for x in it: v.into_iter()
                    invariant
                        out.len() == it.index(),
                        terms(it.seq()) == lhs,
                        forall|k: int|
                            0 <= k < it.index() ==> out@[k]@ == Term::unary(op, lhs[k]),
                {
                    out.push(Expr::unary(op, x));
                }
                let r = NumType::Vector(out);
                assert(r@->Vector_0 =~= self@.map(op)->Vector_0);
                r
            },
        }
    }

    /// `op` on `self` and `rhs`, by the rule of [`Value::combine`].
    pub fn combine(self, op: BinaryOp, rhs: &NumType) -> (r: NumType)
        ensures
            r@ == self@.combine(op, rhs@),
    {
        match self {
            NumType::Scalar(l) => match rhs {
                NumType::Scalar(r) => NumType::Scalar(Expr::binary(op, l, r.duplicate())),
                NumType::Vector(v) => {
                    let mut out: Vec<Expr> = Vec::new();
                    let mut i: usize = 0;
                    while i < v.len()
                        invariant
                            i <= v.len(),
                            out.len() == i,
                            forall|k: int|
                                0 <= k < i ==> out@[k]@ == Term::binary(op, l@, v@[k]@),
                        decreases v.len() - i,
                    {
                        out.push(Expr::binary(op, l.duplicate(), v[i].duplicate()));
                        i += 1;
                    }
                    let r = NumType::Vector(out);
                    assert(r@->Vector_0 =~= self@.combine(op, rhs@)->Vector_0);
                    r
                },
            },
            NumType::Vector(v) => {
                let ghost lhs = terms(v@);
                let mut out: Vec<Expr> = Vec::new();
                for x in it: v.into_iter()
                    invariant
                        out.len() == it.index(),
                        terms(it.seq()) == lhs,
                        forall|k: int|
                            0 <= k < it.index() ==> out@[k]@ == (Value::Vector(lhs).combine(
                                op,
                                rhs@,
                            )->Vector_0)[k],
                {
                    let other = match rhs {
                        NumType::Scalar(n) => n.duplicate(),
                        NumType::Vector(w) => if out.len() < w.len() {
                            w[out.len()].duplicate()
                        } else {
                            Expr::Bits(ONE)
                        },
                    };
                    out.push(Expr::binary(op, x, other));
                }
                let r = NumType::Vector(out);
                assert(r@->Vector_0 =~= self@.combine(op, rhs@)->Vector_0);
                r
            },
        }
    }
}

/// The texts joined, with a comma and a space between each two.
pub open spec fn joined(parts: Seq<Seq<char>>) -> Seq<char>
    decreases parts.len(),
{
    if parts.len() == 0 {
        Seq::empty()
    } else if parts.len() == 1 {
        parts[0]
    } else {
        joined(parts.drop_last()) + ", "@ + parts.last()
    }
}

/// The texts of a list of strings.
pub open spec fn shown(parts: Seq<String>) -> Seq<Seq<char>> {
    Seq::new(parts.len(), |i: int| parts[i]@)
}

impl Value {
    /// How many numbers make up the value: one for a scalar, one for each
    /// component of a vector.
    pub open spec fn count(self) -> nat {
        match self {
            Value::Scalar(_) => 1,
            Value::Vector(v) => v.len(),
        }
    }

    /// How the value is written, given how each of its numbers is written: a
    /// scalar as its number, a vector as its numbers in square brackets, with
    /// a comma and a space between each two.
    pub open spec fn written(self, parts: Seq<Seq<char>>) -> Seq<char> {
        match self {
            Value::Scalar(_) => joined(parts),
            Value::Vector(_) => "["@ + joined(parts) + "]"@,
        }
    }
}

impl NumType {
    /// How many numbers make up the value: one for a scalar, one for each
    /// component of a vector.
    pub fn count(&self) -> (n: usize)
        ensures
            n == self@.count(),
    {
        match self {
            NumType::Scalar(_) => 1,
            NumType::Vector(v) => v.len(),
        }
    }

    /// Writes the value, given in `parts` how each of its numbers is written:
    /// one text for a scalar, one for each component of a vector.
    pub fn display(&self, parts: &Vec<String>) -> (r: String)
        requires
            parts@.len() == self@.count(),
        ensures
            r@ == self@.written(shown(parts@)),
    {
        let mut list = String::new();
        let mut i: usize = 0;
        let ghost all = shown(parts@);
        assert(all.take(0) == Seq::<Seq<char>>::empty());
        while i < parts.len()
            invariant
                i <= parts.len(),
                all == shown(parts@),
                list@ == joined(all.take(i as int)),
            decreases parts.len() - i,
        {
            proof {
                let next = all.take(i + 1);
                assert(next.drop_last() == all.take(i as int));
                assert(next.last() == parts@[i as int]@);
                if i == 0 {
                    assert(next[0] == parts@[0]@);
                    assert(list@ + parts@[0]@ == parts@[0]@);
                }
            }
            if i > 0 {
                list.append(", ");
            }
            list.append(parts[i].as_str());
            i += 1;
        }
        assert(all.take(parts.len() as int) == all);
        match self {
            NumType::Scalar(_) => list,
            NumType::Vector(_) => {
                let mut r = String::from_str("[");
                r.append(list.as_str());
                r.append("]");
                r
            },
        }
    }

    /// `self` to the power of `rhs`, by the rule of [`Value::combine`].
    pub fn pow(self, rhs: &NumType) -> (r: NumType)
        ensures
            r@ == self@.combine(BinaryOp::Pow, rhs@),
    {
        self.combine(BinaryOp::Pow, rhs)
    }

    /// The scalar of a scalar value; `None` for a vector.
    pub fn scalar_value(self) -> (r: Option<Expr>)
        ensures
            match self@ {
                Value::Scalar(s) => r is Some && r->0@ == s,
                Value::Vector(_) => r is None,
            },
    {
        match self {
            NumType::Scalar(s) => Some(s),
            NumType::Vector(_) => None,
        }
    }
}

impl Mul for NumType {
    type Output = NumType;

    fn mul(self, rhs: NumType) -> (r: NumType)
        ensures
            r@ == self@.combine(BinaryOp::Mul, rhs@),
    {
        self.combine(BinaryOp::Mul, &rhs)
    }
}

impl MulSpecImpl for NumType {
    open spec fn obeys_mul_spec() -> bool {
        false
    }

    open spec fn mul_req(self, rhs: NumType) -> bool {
        true
    }

    open spec fn mul_spec(self, rhs: NumType) -> NumType {
        self
    }
}

impl<'a> Mul<&'a NumType> for NumType {
    type Output = NumType;

    fn mul(self, rhs: &'a NumType) -> (r: NumType)
        ensures
            r@ == self@.combine(BinaryOp::Mul, rhs@),
    {
        self.combine(BinaryOp::Mul, rhs)
    }
}

impl<'a> MulSpecImpl<&'a NumType> for NumType {
    open spec fn obeys_mul_spec() -> bool {
        false
    }

    open spec fn mul_req(self, rhs: &'a NumType) -> bool {
        true
    }

    open spec fn mul_spec(self, rhs: &'a NumType) -> NumType {
        self
    }
}

impl Div for NumType {
    type Output = NumType;

    fn div(self, rhs: NumType) -> (r: NumType)
        ensures
            r@ == self@.combine(BinaryOp::Div, rhs@),
    {
        self.combine(BinaryOp::Div, &rhs)
    }
}

impl DivSpecImpl for NumType {
    open spec fn obeys_div_spec() -> bool {
        false
    }

    open spec fn div_req(self, rhs: NumType) -> bool {
        true
    }

    open spec fn div_spec(self, rhs: NumType) -> NumType {
        self
    }
}

impl Add for NumType {
    type Output = NumType;

    fn add(self, rhs: NumType) -> (r: NumType)
        ensures
            r@ == self@.combine(BinaryOp::Add, rhs@),
    {
        self.combine(BinaryOp::Add, &rhs)
    }
}

impl AddSpecImpl for NumType {
    open spec fn obeys_add_spec() -> bool {
        false
    }

    open spec fn add_req(self, rhs: NumType) -> bool {
        true
    }

    open spec fn add_spec(self, rhs: NumType) -> NumType {
        self
    }
}

impl<'a> Add<&'a NumType> for NumType {
    type Output = NumType;

    fn add(self, rhs: &'a NumType) -> (r: NumType)
        ensures
            r@ == self@.combine(BinaryOp::Add, rhs@),
    {
        self.combine(BinaryOp::Add, rhs)
    }
}

impl<'a> AddSpecImpl<&'a NumType> for NumType {
    open spec fn obeys_add_spec() -> bool {
        false
    }

    open spec fn add_req(self, rhs: &'a NumType) -> bool {
        true
    }

    open spec fn add_spec(self, rhs: &'a NumType) -> NumType {
        self
    }
}

impl Neg for NumType {
    type Output = NumType;

    fn neg(self) -> (r: NumType)
        ensures
            r@ == self@.map(UnaryOp::Neg),
    {
        self.map(UnaryOp::Neg)
    }
}

impl NegSpecImpl for NumType {
    open spec fn obeys_neg_spec() -> bool {
        false
    }

    open spec fn neg_req(self) -> bool {
        true
    }

    open spec fn neg_spec(self) -> NumType {
        self
    }
}

impl Clone for NumType {
    fn clone(&self) -> (r: NumType)
        ensures
            r@ == self@,
    {
        self.duplicate()
    }
}

} // verus!
