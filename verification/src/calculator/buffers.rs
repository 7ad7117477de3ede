//! The three precedence accumulators.
//!
//! Each holds what has gathered at one level of precedence since it was last
//! collapsed. An operator of lower precedence collapses the accumulators above
//! its own level into the one at its level.
use crate::calculator::expr::{BinaryOp, Expr, Term, ONE, ZERO};
use crate::calculator::num_types::{NumType, Value};
use std::collections::VecDeque;
use vstd::prelude::*;

verus! {

/// The mathematical forms of a list of values.
pub open spec fn values(v: Seq<NumType>) -> Seq<Value> {
    Seq::new(v.len(), |i: int| v[i]@)
}

/// `vals` folded from the left with `op`, starting from `start`:
/// `((start op v0) op v1) op ...`.
pub open spec fn fold(op: BinaryOp, start: Value, vals: Seq<Value>) -> Value
    decreases vals.len(),
{
    if vals.len() == 0 {
        start
    } else {
        fold(op, start, vals.drop_last()).combine(op, vals.last())
    }
}

/// The sum of `vals`, starting from 0.
pub open spec fn sum(vals: Seq<Value>) -> Value {
    fold(BinaryOp::Add, Value::Scalar(Term::Bits(ZERO)), vals)
}

/// The product of `vals`, starting from 1.
pub open spec fn product(vals: Seq<Value>) -> Value {
    fold(BinaryOp::Mul, Value::Scalar(Term::Bits(ONE)), vals)
}

/// The tower of powers over `vals`, folded from the left: `(v0 ^ v1) ^ v2 ...`.
/// No value gives 1, and one value gives itself.
pub open spec fn power(vals: Seq<Value>) -> Value {
    if vals.len() == 0 {
        Value::Scalar(Term::Bits(ONE))
    } else {
        fold(BinaryOp::Pow, vals[0], vals.drop_first())
    }
}

/// What a value is stored as in the multiplication accumulator: itself, or
/// 1 divided by it where a division is pending.
pub open spec fn factor(dividing: bool, n: Value) -> Value {
    if dividing {
        Value::Scalar(Term::Bits(ONE)).combine(BinaryOp::Div, n)
    } else {
        n
    }
}

/// Folds `numbers[from..]` onto `start`.
fn fold_onto(op: BinaryOp, start: NumType, numbers: &Vec<NumType>, from: usize) -> (r: NumType)
    requires
        from <= numbers.len(),
    ensures
        r@ == fold(op, start@, values(numbers@).subrange(from as int, numbers.len() as int)),
{
    let ghost vals = values(numbers@).subrange(from as int, numbers.len() as int);
    let ghost first = start@;
    let mut total = start;
    let mut i: usize = from;
    assert(vals.take(0) == Seq::<Value>::empty());
    while i < numbers.len()
        invariant
            from <= i <= numbers.len(),
            vals == values(numbers@).subrange(from as int, numbers.len() as int),
            total@ == fold(op, first, vals.take(i - from)),
        decreases numbers.len() - i,
    {
        proof {
            let next = vals.take(i + 1 - from);
            assert(next.drop_last() == vals.take(i - from));
            assert(next.last() == numbers@[i as int]@);
        }
        total = total.combine(op, &numbers[i]);
        i += 1;
    }
    assert(vals.take(numbers.len() - from) == vals);
    total
}

/// An accumulator that merges what it holds into one value and empties itself.
pub trait Collapse {
    /// The values held, oldest first.
    spec fn held(&self) -> Seq<Value>;

    /// What the values held merge into.
    spec fn merged(&self) -> Value;

    fn collapse(&mut self) -> (r: NumType)
        ensures
            r@ == old(self).merged(),
            final(self).held() == Seq::<Value>::empty(),
    ;
}

/// Values that are multiplied together, and divided where a division was
/// pending when they came.
pub struct MultiplicationBuffer {
    numbers: Vec<NumType>,
    dividing: bool,
}

/// Values that are added together.
pub struct AdditionBuffer {
    numbers: Vec<NumType>,
}

/// Values of which each is raised to the power of the next.
pub struct ExponentBuffer {
    numbers: VecDeque<NumType>,
}

impl Collapse for ExponentBuffer {
    closed spec fn held(&self) -> Seq<Value> {
        values(self.numbers@)
    }

    open spec fn merged(&self) -> Value {
        power(self.held())
    }

    fn collapse(&mut self) -> (r: NumType) {
        let ghost vals = values(self.numbers@);
        match self.numbers.pop_front() {
            None => NumType::Scalar(Expr::Bits(ONE)),
            Some(first) => {
                let ghost rest = vals.drop_first();
                assert(values(self.numbers@) == rest);
                let mut total = first;
                let mut i: usize = 0;
                assert(rest.take(0) == Seq::<Value>::empty());
                while i < self.numbers.len()
                    invariant
                        i <= self.numbers.len(),
                        rest == values(self.numbers@),
                        total@ == fold(BinaryOp::Pow, vals[0], rest.take(i as int)),
                    decreases self.numbers.len() - i,
                {
                    proof {
                        let next = rest.take(i + 1);
                        assert(next.drop_last() == rest.take(i as int));
                        assert(next.last() == self.numbers@[i as int]@);
                    }
                    total = total.pow(&self.numbers[i]);
                    i += 1;
                }
                assert(rest.take(self.numbers.len() as int) == rest);
                self.numbers.clear();
                total
            },
        }
    }
}

impl Collapse for MultiplicationBuffer {
    closed spec fn held(&self) -> Seq<Value> {
        values(self.numbers@)
    }

    open spec fn merged(&self) -> Value {
        product(self.held())
    }

    fn collapse(&mut self) -> (r: NumType)
        ensures
            final(self).dividing() == old(self).dividing(),
    {
        assert(values(self.numbers@).subrange(0, self.numbers.len() as int) == values(
            self.numbers@,
        ));
        let total = fold_onto(BinaryOp::Mul, NumType::Scalar(Expr::Bits(ONE)), &self.numbers, 0);
        self.numbers.clear();
        total
    }
}

impl Collapse for AdditionBuffer {
    closed spec fn held(&self) -> Seq<Value> {
        values(self.numbers@)
    }

    open spec fn merged(&self) -> Value {
        sum(self.held())
    }

    fn collapse(&mut self) -> (r: NumType) {
        assert(values(self.numbers@).subrange(0, self.numbers.len() as int) == values(
            self.numbers@,
        ));
        let total = fold_onto(BinaryOp::Add, NumType::Scalar(Expr::Bits(ZERO)), &self.numbers, 0);
        self.numbers.clear();
        total
    }
}

impl AdditionBuffer {
    /// An accumulator that holds nothing.
    pub fn new() -> (r: AdditionBuffer)
        ensures
            r.held() == Seq::<Value>::empty(),
    {
        AdditionBuffer { numbers: Vec::new() }
    }

    /// Adds `n` behind what is held.
    pub fn push(&mut self, n: NumType)
        ensures
            final(self).held() == old(self).held().push(n@),
    {
        self.numbers.push(n);
        assert(values(self.numbers@) =~= values(old(self).numbers@).push(n@));
    }
}

impl MultiplicationBuffer {
    /// Whether a division is pending: the next value pushed is a divisor.
    pub closed spec fn dividing(&self) -> bool {
        self.dividing
    }

    /// Whether a division is pending.
    pub fn is_dividing(&self) -> (b: bool)
        ensures
            b == self.dividing(),
    {
        self.dividing
    }

    /// Makes the next value pushed a divisor.
    pub fn divide_next(&mut self)
        ensures
            final(self).held() == old(self).held(),
            final(self).dividing(),
    {
        self.dividing = true;
    }

    /// An accumulator that holds nothing, with no division pending.
    pub fn new() -> (r: MultiplicationBuffer)
        ensures
            r.held() == Seq::<Value>::empty(),
            !r.dividing(),
    {
        MultiplicationBuffer { numbers: Vec::new(), dividing: false }
    }

    /// Adds `n` behind what is held, or 1 divided by `n` where a division is
    /// pending. No division is pending afterwards.
    pub fn push(&mut self, n: NumType)
        ensures
            final(self).held() == old(self).held().push(factor(old(self).dividing(), n@)),
            !final(self).dividing(),
    {
        if self.dividing {
            let inverse = NumType::Scalar(Expr::Bits(ONE)).combine(BinaryOp::Div, &n);
            self.numbers.push(inverse);
            self.dividing = false;
        } else {
            self.numbers.push(n);
        }
        assert(values(self.numbers@) =~= values(old(self).numbers@).push(
            factor(old(self).dividing, n@),
        ));
    }
}

impl ExponentBuffer {
    /// An accumulator that holds nothing.
    pub fn new() -> (r: ExponentBuffer)
        ensures
            r.held() == Seq::<Value>::empty(),
    {
        ExponentBuffer { numbers: VecDeque::new() }
    }

    /// Adds `n` behind what is held.
    pub fn push(&mut self, n: NumType)
        ensures
            final(self).held() == old(self).held().push(n@),
    {
        self.numbers.push_back(n);
        assert(values(self.numbers@) =~= values(old(self).numbers@).push(n@));
    }

    /// The value that came last, if any is held.
    pub fn get_back(&self) -> (r: Option<&NumType>)
        ensures
            self.held().len() == 0 ==> r is None,
            self.held().len() > 0 ==> r is Some && r->0@ == self.held().last(),
    {
        if self.numbers.len() == 0 {
            None
        } else {
            Some(&self.numbers[self.numbers.len() - 1])
        }
    }

    /// Drops the value that came last; nothing where none is held.
    pub fn remove_back(&mut self)
        ensures
            old(self).held().len() == 0 ==> final(self).held() == old(self).held(),
            old(self).held().len() > 0 ==> final(self).held() == old(self).held().drop_last(),
    {
        let _ = self.numbers.pop_back();
        assert(old(self).held().len() > 0 ==> values(self.numbers@) =~= values(
            old(self).numbers@,
        ).drop_last());
    }
}

impl Default for MultiplicationBuffer {
    fn default() -> (r: MultiplicationBuffer)
        ensures
            r.held() == Seq::<Value>::empty(),
            !r.dividing(),
    {
        MultiplicationBuffer::new()
    }
}

impl Default for AdditionBuffer {
    fn default() -> (r: AdditionBuffer)
        ensures
            r.held() == Seq::<Value>::empty(),
    {
        AdditionBuffer::new()
    }
}

impl Default for ExponentBuffer {
    fn default() -> (r: ExponentBuffer)
        ensures
            r.held() == Seq::<Value>::empty(),
    {
        ExponentBuffer::new()
    }
}

} // verus!
