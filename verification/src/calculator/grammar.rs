//! What a text evaluates to.
//!
//! The text is read from the left, one character or one run of characters at a
//! time, with no look-back. What has been read is held in three sequences of
//! values, one for each level of precedence, and a flag that tells a minus
//! sign that subtracts from one that negates.
use crate::calculator::buffers::{factor, power, product, sum};
use crate::calculator::expr::{Term, MINUS_ONE};
use crate::calculator::num_types::Value;
use crate::calculator::Fault;
use crate::log::symbol_type::Symbol;
use crate::log::Env;
use crate::text::{
    arguments, components, find, index_value, is_decimal, is_digit, is_letter,
    lemma_arguments_short, lemma_components_short, lemma_find, lemma_run_end, run_end, step_over,
    CharClass,
};
use vstd::prelude::*;

verus! {

/// What has been read of a text.
pub struct State {
    /// The values since the last operator: each is raised to the power of the
    /// next.
    pub powers: Seq<Value>,
    /// The factors since the last sign.
    pub factors: Seq<Value>,
    /// Whether the next factor is a divisor.
    pub dividing: bool,
    /// The terms of the sum so far.
    pub summands: Seq<Value>,
    /// Whether a number was read last, and no operator since.
    pub previous_number: bool,
}

impl State {
    /// Nothing read.
    pub open spec fn start() -> State {
        State {
            powers: Seq::empty(),
            factors: Seq::empty(),
            dividing: false,
            summands: Seq::empty(),
            previous_number: false,
        }
    }

    /// A value read.
    pub open spec fn push(self, v: Value) -> State {
        State { powers: self.powers.push(v), ..self }
    }

    /// A value read that counts as a number for a minus sign behind it.
    pub open spec fn number(self, v: Value) -> State {
        State { previous_number: true, ..self.push(v) }
    }

    /// `*` read: the tower of powers becomes a factor.
    pub open spec fn times(self) -> State {
        State {
            powers: Seq::empty(),
            factors: self.factors.push(factor(self.dividing, power(self.powers))),
            dividing: false,
            previous_number: false,
            ..self
        }
    }

    /// `/` read: as `*`, and the next factor is a divisor.
    pub open spec fn over(self) -> State {
        State { dividing: true, ..self.times() }
    }

    /// `+` read: the tower of powers becomes a factor, and the product of the
    /// factors a summand.
    pub open spec fn plus(self) -> State {
        let t = self.times();
        State { factors: Seq::empty(), summands: t.summands.push(product(t.factors)), ..t }
    }

    /// `-` read: behind a number as `+`; in either case -1 becomes a factor.
    pub open spec fn minus(self) -> State {
        let s = if self.previous_number {
            self.plus()
        } else {
            self
        };
        State {
            factors: s.factors.push(factor(s.dividing, Value::Scalar(Term::Bits(MINUS_ONE)))),
            dividing: false,
            ..s
        }
    }

    /// The end of the text read: the sum of the summands, what is pending
    /// among them.
    pub open spec fn finish(self) -> Value {
        sum(self.plus().summands)
    }

    /// A vector's component asked for: the scalar at `index` takes the place
    /// of the vector, which must be the value read last. `index` is `None`
    /// where what stood behind the point is no index.
    pub open spec fn component(self, index: Option<usize>) -> Result<State, Fault> {
        if self.powers.len() > 0 && self.powers.last() is Vector {
            let v = self.powers.last()->Vector_0;
            match index {
                None => Err(Fault::ComponentAccessError),
                Some(n) => if n < v.len() {
                    Ok(
                        State {
                            powers: self.powers.drop_last().push(Value::Scalar(v[n as int])),
                            ..self
                        },
                    )
                } else {
                    Err(Fault::ComponentDNE)
                },
            }
        } else {
            Err(Fault::ComponentAccessError)
        }
    }
}

/// The index that stands behind the point at `at`, and where the text goes
/// on behind it. `x`, `y` and `z` are 0, 1 and 2, and so is 0 a point at the
/// end of the text. Anything else is read with the digits that follow it, and
/// is an index or none.
pub open spec fn index_behind(s: Seq<char>, at: int) -> (Option<usize>, int) {
    if at + 1 >= s.len() {
        (Some(0usize), s.len() as int)
    } else if s[at + 1] == 'x' {
        (Some(0usize), at + 2)
    } else if s[at + 1] == 'y' {
        (Some(1usize), at + 2)
    } else if s[at + 1] == 'z' {
        (Some(2usize), at + 2)
    } else {
        let end = run_end(s, at + 2, CharClass::Digit);
        (index_value(s.subrange(at + 1, end)), end)
    }
}

/// The length of the longest of `texts`.
pub open spec fn longest(texts: Seq<Seq<char>>) -> nat
    decreases texts.len(),
{
    if texts.len() == 0 {
        0
    } else if texts.last().len() > longest(texts.drop_last()) {
        texts.last().len()
    } else {
        longest(texts.drop_last())
    }
}

/// What the text evaluates to in `env`.
pub open spec fn evaluate(s: Seq<char>, env: Env) -> Result<Value, Fault>
    decreases s.len(), 2nat, 0nat,
{
    scan(s, 0, State::start(), env)
}

/// What each of `texts` evaluates to, in order, or the first failure among
/// them. Where `flat` is set, a text that evaluates to a vector is a failure.
pub open spec fn evaluate_each(texts: Seq<Seq<char>>, env: Env, flat: bool) -> Result<
    Seq<Value>,
    Fault,
>
    decreases longest(texts), 3nat, texts.len(),
{
    if texts.len() == 0 {
        Ok(Seq::empty())
    } else {
        match evaluate_each(texts.drop_last(), env, flat) {
            Err(fault) => Err(fault),
            Ok(before) => match evaluate(texts.last(), env) {
                Err(fault) => Err(fault),
                Ok(v) => if flat && v is Vector {
                    Err(Fault::RecursiveVectors)
                } else {
                    Ok(before.push(v))
                },
            },
        }
    }
}

/// The vector of the given scalars.
pub open spec fn vector_of(parts: Seq<Value>) -> Value {
    Value::Vector(Seq::new(parts.len(), |k: int| parts[k]->Scalar_0))
}

/// What the text evaluates to from position `i` on, `st` being what was read
/// before `i`.
///
/// - `(` evaluates the text up to the next `)` on its own, and the result
///   counts as a number. Without a `)` that text runs to the end.
/// - `[` evaluates the components of the text up to the next `]`, which must
///   all be scalars, to a vector.
/// - `.` behind a number takes a component of the vector read last.
/// - A digit, or a `.` elsewhere, starts a decimal literal that runs as far as
///   digits and points go.
/// - `*`, `/`, `+` and `-` are the operators.
/// - A letter starts a name that runs as far as letters go: a constant or a
///   variable gives its value; a function is applied to the arguments in the
///   text up to the next `)`.
/// - `\` gives the last result.
/// - Any other character is passed over.
pub open spec fn scan(s: Seq<char>, i: int, st: State, env: Env) -> Result<Value, Fault>
    decreases s.len(), 1nat, s.len() - i,
    via scan_decreases
{
    if i < 0 || i >= s.len() {
        Ok(st.finish())
    } else if s[i] == '(' {
        let close = find(s, i + 1, ')');
        match evaluate(s.subrange(i + 1, close), env) {
            Err(fault) => Err(fault),
            Ok(v) => scan(s, step_over(s, close), st.number(v), env),
        }
    } else if s[i] == '[' {
        let close = find(s, i + 1, ']');
        match evaluate_each(components(s.subrange(i + 1, close)), env, true) {
            Err(fault) => Err(fault),
            Ok(parts) => scan(s, step_over(s, close), st.number(vector_of(parts)), env),
        }
    } else if s[i] == '.' && st.previous_number {
        let (index, next) = index_behind(s, i);
        match st.component(index) {
            Err(fault) => Err(fault),
            Ok(after) => scan(s, next, after, env),
        }
    } else if is_digit(s[i]) || s[i] == '.' {
        let end = run_end(s, i + 1, CharClass::DigitOrPoint);
        let literal = s.subrange(i, end);
        if is_decimal(literal) {
            scan(s, end, st.number(Value::Scalar(Term::Literal(literal))), env)
        } else {
            Err(Fault::ParseNumberErrror)
        }
    } else if s[i] == '*' {
        scan(s, i + 1, st.times(), env)
    } else if s[i] == '/' {
        scan(s, i + 1, st.over(), env)
    } else if s[i] == '+' {
        scan(s, i + 1, st.plus(), env)
    } else if s[i] == '-' {
        scan(s, i + 1, st.minus(), env)
    } else if is_letter(s[i]) {
        let end = run_end(s, i + 1, CharClass::Letter);
        let name = s.subrange(i, end);
        match env.symbol(name) {
            None => Err(Fault::UnknownSymbol(name)),
            Some(Symbol::Variable(v)) => scan(s, end, st.number(v), env),
            Some(Symbol::UserFn) => scan(s, end, State { previous_number: true, ..st }, env),
            Some(Symbol::DefaultFn(function)) => {
                let close = find(s, end, ')');
                match evaluate_each(arguments(s.subrange(end, close)), env, false) {
                    Err(fault) => Err(fault),
                    Ok(args) => match function.result(args) {
                        Err(fault) => Err(fault),
                        Ok(v) => scan(s, step_over(s, close), st.number(v), env),
                    },
                }
            },
        }
    } else if s[i] == '\\' {
        scan(s, i + 1, st.push(env.last_number), env)
    } else {
        scan(s, i + 1, st, env)
    }
}

/// None of `texts` is longer than `bound`.
pub proof fn lemma_longest(texts: Seq<Seq<char>>, bound: nat)
    requires
        forall|k: int| 0 <= k < texts.len() ==> (#[trigger] texts[k]).len() <= bound,
    ensures
        longest(texts) <= bound,
    decreases texts.len(),
{
    if texts.len() > 0 {
        assert forall|k: int| 0 <= k < texts.drop_last().len() implies (
        #[trigger] texts.drop_last()[k]).len() <= bound by {
            assert(texts.drop_last()[k] == texts[k]);
        }
        lemma_longest(texts.drop_last(), bound);
    }
}

#[via_fn]
proof fn scan_decreases(s: Seq<char>, i: int, st: State, env: Env) {
    if 0 <= i < s.len() {
        lemma_find(s, i + 1, ')');
        lemma_find(s, i + 1, ']');
        lemma_run_end(s, i + 1, CharClass::DigitOrPoint);
        lemma_run_end(s, i + 1, CharClass::Letter);
        let end = run_end(s, i + 1, CharClass::Letter);
        lemma_find(s, end, ')');
        if i + 2 <= s.len() {
            lemma_run_end(s, i + 2, CharClass::Digit);
        }
        let inner = s.subrange(i + 1, find(s, i + 1, ']'));
        lemma_components_short(inner, 0);
        lemma_longest(components(inner), inner.len());
        let given = s.subrange(end, find(s, end, ')'));
        lemma_arguments_short(given, 0);
        lemma_longest(arguments(given), given.len());
    }
}

} // verus!
