//! What holds of every evaluation.
use crate::calculator::buffers::{fold, power, product, sum};
use crate::calculator::expr::{BinaryOp, Term, MINUS_ONE, ONE};
use crate::calculator::grammar::{evaluate, evaluate_each, scan, State};
use crate::calculator::num_types::Value;
use crate::calculator::request::{asked, Asked};
use crate::calculator::{answered, entered, preview, Fault, Reply};
use crate::log::symbol_type::Symbol;
use crate::log::Env;
use crate::text::{
    arguments, is_decimal, is_letter, is_space, lemma_find_unique, lemma_run_end_unique, lower, normalized,
    CharClass,
};
use vstd::prelude::*;

verus! {

/// A run of digits and points, read where a number may start, is one literal:
/// the scan goes on behind it with the literal as a number, or fails where
/// the run is no decimal literal.
pub proof fn lemma_literal(s: Seq<char>, i: int, end: int, st: State, env: Env)
    requires
        0 <= i < end <= s.len(),
        forall|k: int| i <= k < end ==> CharClass::DigitOrPoint.holds(#[trigger] s[k]),
        end < s.len() ==> !CharClass::DigitOrPoint.holds(s[end]),
        s[i] == '.' ==> !st.previous_number,
    ensures
        scan(s, i, st, env) == if is_decimal(s.subrange(i, end)) {
            scan(s, end, st.number(Value::Scalar(Term::Literal(s.subrange(i, end)))), env)
        } else {
            Err(Fault::ParseNumberErrror)
        },
{
    assert(CharClass::DigitOrPoint.holds(s[i]));
    lemma_run_end_unique(s, i + 1, CharClass::DigitOrPoint, end);
}

/// How a number is written: a decimal literal, behind a minus sign where
/// the number is negative.
pub open spec fn number_text(negative: bool, literal: Seq<char>) -> Seq<char> {
    if negative {
        seq!['-'] + literal
    } else {
        literal
    }
}

/// The factors that a number is read as: -1 for its sign, and its literal.
pub open spec fn number_factors(negative: bool, literal: Seq<char>) -> Seq<Value> {
    if negative {
        seq![Value::Scalar(Term::Bits(MINUS_ONE)), Value::Scalar(Term::Literal(literal))]
    } else {
        seq![Value::Scalar(Term::Literal(literal))]
    }
}

/// Two numbers with `sign` between them.
pub open spec fn two_numbers(
    first_negative: bool,
    a: Seq<char>,
    sign: char,
    second_negative: bool,
    b: Seq<char>,
) -> Seq<char> {
    number_text(first_negative, a) + seq![sign] + number_text(second_negative, b)
}

/// What has been read once a number was read where a number may start.
pub open spec fn number_read(st: State, negative: bool, literal: Seq<char>) -> State {
    let signed = if negative {
        st.minus()
    } else {
        st
    };
    signed.number(Value::Scalar(Term::Literal(literal)))
}

/// A number that stands at `i`, behind an operator or at the start of the
/// text, is read as its sign and its literal.
pub proof fn lemma_number(
    s: Seq<char>,
    i: int,
    negative: bool,
    literal: Seq<char>,
    st: State,
    env: Env,
)
    requires
        0 <= i,
        i + number_text(negative, literal).len() <= s.len(),
        s.subrange(i, i + number_text(negative, literal).len()) == number_text(negative, literal),
        i + number_text(negative, literal).len() < s.len() ==> !CharClass::DigitOrPoint.holds(
            s[i + number_text(negative, literal).len()],
        ),
        is_decimal(literal),
        !st.previous_number,
    ensures
        scan(s, i, st, env) == scan(
            s,
            i + number_text(negative, literal).len(),
            number_read(st, negative, literal),
            env,
        ),
{
    let text = number_text(negative, literal);
    let end = i + text.len();
    let from = if negative {
        i + 1
    } else {
        i
    };
    let signed = if negative {
        st.minus()
    } else {
        st
    };
    assert(literal.len() > 0);
    assert forall|k: int| i <= k < end implies s[k] == #[trigger] text[k - i] by {
        assert(s.subrange(i, end)[k - i] == s[k]);
    }
    if negative {
        assert(s[i] == text[0]);
        assert(scan(s, i, st, env) == scan(s, i + 1, signed, env));
    }
    assert forall|k: int| from <= k < end implies CharClass::DigitOrPoint.holds(
        #[trigger] s[k],
    ) by {
        assert(s[k] == text[k - i]);
        assert(text[k - i] == literal[k - from]);
    }
    assert forall|k: int| 0 <= k < literal.len() implies s.subrange(from, end)[k]
        == #[trigger] literal[k] by {
        assert(s[from + k] == text[from + k - i]);
    }
    assert(s.subrange(from, end) =~= literal);
    lemma_literal(s, from, end, signed, env);
}

/// A number alone evaluates to the product of its factors, as the one
/// summand: `0 + 1 * -1 * a` for a negative number.
pub proof fn lemma_one_number(negative: bool, a: Seq<char>, env: Env)
    requires
        is_decimal(a),
    ensures
        evaluate(number_text(negative, a), env) == Ok::<Value, Fault>(
            sum(seq![product(number_factors(negative, a))]),
        ),
{
    let s = number_text(negative, a);
    assert(s.subrange(0, s.len() as int) == s);
    lemma_number(s, 0, negative, a, State::start(), env);
    let read = number_read(State::start(), negative, a);
    assert(scan(s, s.len() as int, read, env) == Ok::<Value, Fault>(read.finish()));
    lemma_power_of_one(Value::Scalar(Term::Literal(a)));
    assert(read.times().factors == number_factors(negative, a));
    assert(read.plus().summands == seq![product(number_factors(negative, a))]);
}

/// What two numbers with an operator between them are read as, up to the
/// end of the text: the first number, the operator, the second number.
proof fn lemma_two_numbers(
    first_negative: bool,
    a: Seq<char>,
    sign: char,
    second_negative: bool,
    b: Seq<char>,
    env: Env,
) -> (r: (State, State))
    requires
        is_decimal(a),
        is_decimal(b),
        sign == '+' || sign == '-' || sign == '*' || sign == '/',
    ensures
        r.0 == number_read(State::start(), first_negative, a),
        r.1 == number_read(
            if sign == '+' {
                r.0.plus()
            } else if sign == '-' {
                r.0.minus()
            } else if sign == '*' {
                r.0.times()
            } else {
                r.0.over()
            },
            second_negative,
            b,
        ),
        evaluate(two_numbers(first_negative, a, sign, second_negative, b), env) == Ok::<
            Value,
            Fault,
        >(r.1.finish()),
{
    let s = two_numbers(first_negative, a, sign, second_negative, b);
    let ta = number_text(first_negative, a);
    let tb = number_text(second_negative, b);
    let n = ta.len() as int;
    assert(s.subrange(0, n) == ta);
    assert(s[n] == sign);
    lemma_number(s, 0, first_negative, a, State::start(), env);
    let first = number_read(State::start(), first_negative, a);
    let between = if sign == '+' {
        first.plus()
    } else if sign == '-' {
        first.minus()
    } else if sign == '*' {
        first.times()
    } else {
        first.over()
    };
    assert(scan(s, n, first, env) == scan(s, n + 1, between, env));
    assert(s.subrange(n + 1, n + 1 + tb.len()) == tb);
    lemma_number(s, n + 1, second_negative, b, between, env);
    let second = number_read(between, second_negative, b);
    assert(scan(s, s.len() as int, second, env) == Ok::<Value, Fault>(second.finish()));
    (first, second)
}

/// A tower of one value is the value.
proof fn lemma_power_of_one(v: Value)
    ensures
        power(seq![v]) == v,
{
    assert(seq![v].drop_first() == Seq::<Value>::empty());
}

/// Two numbers with a plus sign between them evaluate to the sum of the two,
/// each the product of its factors: `0 + 1 * a + 1 * b` for two numbers
/// without a sign.
pub proof fn lemma_sum_of_two(
    first_negative: bool,
    a: Seq<char>,
    second_negative: bool,
    b: Seq<char>,
    env: Env,
)
    requires
        is_decimal(a),
        is_decimal(b),
    ensures
        evaluate(two_numbers(first_negative, a, '+', second_negative, b), env) == Ok::<
            Value,
            Fault,
        >(
            sum(
                seq![
                    product(number_factors(first_negative, a)),
                    product(number_factors(second_negative, b)),
                ],
            ),
        ),
{
    let (first, second) = lemma_two_numbers(first_negative, a, '+', second_negative, b, env);
    lemma_power_of_one(Value::Scalar(Term::Literal(a)));
    lemma_power_of_one(Value::Scalar(Term::Literal(b)));
    assert(first.times().factors == number_factors(first_negative, a));
    assert(second.times().factors == number_factors(second_negative, b));
    assert(second.plus().summands == seq![
        product(number_factors(first_negative, a)),
        product(number_factors(second_negative, b)),
    ]);
}

/// Two numbers with a minus sign between them evaluate to the sum of the
/// first and the second times -1: `0 + 1 * a + 1 * -1 * b` for two numbers
/// without a sign.
pub proof fn lemma_difference_of_two(
    first_negative: bool,
    a: Seq<char>,
    second_negative: bool,
    b: Seq<char>,
    env: Env,
)
    requires
        is_decimal(a),
        is_decimal(b),
    ensures
        evaluate(two_numbers(first_negative, a, '-', second_negative, b), env) == Ok::<
            Value,
            Fault,
        >(
            sum(
                seq![
                    product(number_factors(first_negative, a)),
                    product(
                        seq![Value::Scalar(Term::Bits(MINUS_ONE))] + number_factors(
                            second_negative,
                            b,
                        ),
                    ),
                ],
            ),
        ),
{
    let (first, second) = lemma_two_numbers(first_negative, a, '-', second_negative, b, env);
    lemma_power_of_one(Value::Scalar(Term::Literal(a)));
    lemma_power_of_one(Value::Scalar(Term::Literal(b)));
    assert(first.times().factors == number_factors(first_negative, a));
    assert(second.times().factors == seq![Value::Scalar(Term::Bits(MINUS_ONE))]
        + number_factors(second_negative, b));
    assert(second.plus().summands == seq![
        product(number_factors(first_negative, a)),
        product(
            seq![Value::Scalar(Term::Bits(MINUS_ONE))] + number_factors(second_negative, b),
        ),
    ]);
}

/// Two numbers with a multiplication sign between them evaluate to the
/// product of all their factors: `0 + 1 * a * b` for two numbers without a
/// sign.
pub proof fn lemma_product_of_two(
    first_negative: bool,
    a: Seq<char>,
    second_negative: bool,
    b: Seq<char>,
    env: Env,
)
    requires
        is_decimal(a),
        is_decimal(b),
    ensures
        evaluate(two_numbers(first_negative, a, '*', second_negative, b), env) == Ok::<
            Value,
            Fault,
        >(
            sum(
                seq![
                    product(
                        number_factors(first_negative, a) + number_factors(second_negative, b),
                    ),
                ],
            ),
        ),
{
    let (first, second) = lemma_two_numbers(first_negative, a, '*', second_negative, b, env);
    lemma_power_of_one(Value::Scalar(Term::Literal(a)));
    lemma_power_of_one(Value::Scalar(Term::Literal(b)));
    assert(first.times().factors == number_factors(first_negative, a));
    assert(second.times().factors == number_factors(first_negative, a) + number_factors(
        second_negative,
        b,
    ));
    assert(second.plus().summands == seq![
        product(number_factors(first_negative, a) + number_factors(second_negative, b)),
    ]);
}

/// A number, a division sign and a number without a sign evaluate to the
/// product of the first number's factors and the inverse of the second:
/// `0 + 1 * a * (1 / b)` for two numbers without a sign.
pub proof fn lemma_quotient_of_two(first_negative: bool, a: Seq<char>, b: Seq<char>, env: Env)
    requires
        is_decimal(a),
        is_decimal(b),
    ensures
        evaluate(two_numbers(first_negative, a, '/', false, b), env) == Ok::<Value, Fault>(
            sum(
                seq![
                    product(
                        number_factors(first_negative, a).push(
                            Value::Scalar(Term::Bits(ONE)).combine(
                                BinaryOp::Div,
                                Value::Scalar(Term::Literal(b)),
                            ),
                        ),
                    ),
                ],
            ),
        ),
{
    let (first, second) = lemma_two_numbers(first_negative, a, '/', false, b, env);
    lemma_power_of_one(Value::Scalar(Term::Literal(a)));
    lemma_power_of_one(Value::Scalar(Term::Literal(b)));
    assert(first.times().factors == number_factors(first_negative, a));
    let inverse = Value::Scalar(Term::Bits(ONE)).combine(
        BinaryOp::Div,
        Value::Scalar(Term::Literal(b)),
    );
    assert(second.times().factors == number_factors(first_negative, a).push(inverse));
    assert(second.plus().summands == seq![
        product(number_factors(first_negative, a).push(inverse)),
    ]);
}

/// A minus sign behind a division sign is what is divided by: a number, a
/// division sign and a negative number evaluate to the product of the first
/// number's factors, the inverse of -1, and the second number's literal.
pub proof fn lemma_quotient_by_negative(
    first_negative: bool,
    a: Seq<char>,
    b: Seq<char>,
    env: Env,
)
    requires
        is_decimal(a),
        is_decimal(b),
    ensures
        evaluate(two_numbers(first_negative, a, '/', true, b), env) == Ok::<Value, Fault>(
            sum(
                seq![
                    product(
                        number_factors(first_negative, a).push(
                            Value::Scalar(Term::Bits(ONE)).combine(
                                BinaryOp::Div,
                                Value::Scalar(Term::Bits(MINUS_ONE)),
                            ),
                        ).push(Value::Scalar(Term::Literal(b))),
                    ),
                ],
            ),
        ),
{
    let (first, second) = lemma_two_numbers(first_negative, a, '/', true, b, env);
    lemma_power_of_one(Value::Scalar(Term::Literal(a)));
    lemma_power_of_one(Value::Scalar(Term::Literal(b)));
    assert(first.times().factors == number_factors(first_negative, a));
    let inverse = Value::Scalar(Term::Bits(ONE)).combine(
        BinaryOp::Div,
        Value::Scalar(Term::Bits(MINUS_ONE)),
    );
    assert(second.times().factors == number_factors(first_negative, a).push(inverse).push(
        Value::Scalar(Term::Literal(b)),
    ));
    assert(second.plus().summands == seq![
        product(
            number_factors(first_negative, a).push(inverse).push(
                Value::Scalar(Term::Literal(b)),
            ),
        ),
    ]);
}

/// A decimal literal that stands at `i`, and is no component asked of the
/// number before it, is read as one number.
pub proof fn lemma_literal_at(s: Seq<char>, i: int, literal: Seq<char>, st: State, env: Env)
    requires
        0 <= i,
        i + literal.len() <= s.len(),
        s.subrange(i, i + literal.len()) == literal,
        i + literal.len() < s.len() ==> !CharClass::DigitOrPoint.holds(s[i + literal.len()]),
        is_decimal(literal),
        literal[0] == '.' ==> !st.previous_number,
    ensures
        scan(s, i, st, env) == scan(
            s,
            i + literal.len(),
            st.number(Value::Scalar(Term::Literal(literal))),
            env,
        ),
{
    let end = i + literal.len();
    assert(literal.len() > 0);
    assert forall|k: int| i <= k < end implies CharClass::DigitOrPoint.holds(#[trigger] s[k]) by {
        assert(s.subrange(i, end)[k - i] == s[k]);
    }
    assert(s[i] == s.subrange(i, end)[0]);
    lemma_literal(s, i, end, st, env);
}

/// Three decimal literals with `first` between the first two and `second`
/// between the last two.
pub open spec fn three_literals(
    a: Seq<char>,
    first: char,
    b: Seq<char>,
    second: char,
    c: Seq<char>,
) -> Seq<char> {
    a + seq![first] + b + seq![second] + c
}

/// Where the three literals of `three_literals` stand in it.
proof fn lemma_three_literals(a: Seq<char>, first: char, b: Seq<char>, second: char, c: Seq<char>)
    ensures
        ({
            let s = three_literals(a, first, b, second, c);
            let n = a.len() as int;
            let m = n + 1 + b.len();
            &&& s.len() == m + 1 + c.len()
            &&& s.subrange(0, n) == a
            &&& s[n] == first
            &&& s.subrange(n + 1, m) == b
            &&& s[m] == second
            &&& s.subrange(m + 1, s.len() as int) == c
        }),
{
    let s = three_literals(a, first, b, second, c);
    let n = a.len() as int;
    let m = n + 1 + b.len();
    assert(s.subrange(0, n) =~= a);
    assert(s.subrange(n + 1, m) =~= b);
    assert(s.subrange(m + 1, s.len() as int) =~= c);
}

/// Powers fold from the left: three literals with `^` between them evaluate
/// to `(a ^ b) ^ c`, as the one factor of the one summand. A literal behind
/// `^` must not start with its point, which would ask for a component.
pub proof fn lemma_powers_fold_left(a: Seq<char>, b: Seq<char>, c: Seq<char>, env: Env)
    requires
        is_decimal(a),
        is_decimal(b),
        is_decimal(c),
        b[0] != '.',
        c[0] != '.',
    ensures
        evaluate(three_literals(a, '^', b, '^', c), env) == Ok::<Value, Fault>(
            sum(
                seq![
                    product(
                        seq![
                            Value::Scalar(Term::Literal(a)).combine(
                                BinaryOp::Pow,
                                Value::Scalar(Term::Literal(b)),
                            ).combine(BinaryOp::Pow, Value::Scalar(Term::Literal(c))),
                        ],
                    ),
                ],
            ),
        ),
{
    let s = three_literals(a, '^', b, '^', c);
    let n = a.len() as int;
    let m = n + 1 + b.len();
    let va = Value::Scalar(Term::Literal(a));
    let vb = Value::Scalar(Term::Literal(b));
    let vc = Value::Scalar(Term::Literal(c));
    lemma_three_literals(a, '^', b, '^', c);
    let st1 = State::start().number(va);
    lemma_literal_at(s, 0, a, State::start(), env);
    assert(scan(s, n, st1, env) == scan(s, n + 1, st1, env));
    let st2 = st1.number(vb);
    lemma_literal_at(s, n + 1, b, st1, env);
    assert(scan(s, m, st2, env) == scan(s, m + 1, st2, env));
    let st3 = st2.number(vc);
    lemma_literal_at(s, m + 1, c, st2, env);
    assert(scan(s, s.len() as int, st3, env) == Ok::<Value, Fault>(st3.finish()));
    assert(st3.powers == seq![va, vb, vc]);
    assert(power(st3.powers) == va.combine(BinaryOp::Pow, vb).combine(
        BinaryOp::Pow,
        vc,
    )) by {
        reveal_with_fuel(fold, 3);
        let rest = st3.powers.drop_first();
        assert(rest == seq![vb, vc]);
        assert(rest.drop_last() == seq![vb]);
        assert(rest.drop_last().drop_last() == Seq::<Value>::empty());
    }
    assert(st3.plus().summands == seq![
        product(seq![va.combine(BinaryOp::Pow, vb).combine(BinaryOp::Pow, vc)]),
    ]);
}

/// A product binds tighter than a sum: `a+b*c` evaluates to the sum of `a`
/// and the product of `b` and `c`, and `a*b+c` to the sum of the product of
/// `a` and `b` and `c`.
pub proof fn lemma_product_before_sum(a: Seq<char>, b: Seq<char>, c: Seq<char>, env: Env)
    requires
        is_decimal(a),
        is_decimal(b),
        is_decimal(c),
    ensures
        evaluate(three_literals(a, '+', b, '*', c), env) == Ok::<Value, Fault>(
            sum(
                seq![
                    product(seq![Value::Scalar(Term::Literal(a))]),
                    product(
                        seq![Value::Scalar(Term::Literal(b)), Value::Scalar(Term::Literal(c))],
                    ),
                ],
            ),
        ),
        evaluate(three_literals(a, '*', b, '+', c), env) == Ok::<Value, Fault>(
            sum(
                seq![
                    product(
                        seq![Value::Scalar(Term::Literal(a)), Value::Scalar(Term::Literal(b))],
                    ),
                    product(seq![Value::Scalar(Term::Literal(c))]),
                ],
            ),
        ),
{
    let n = a.len() as int;
    let m = n + 1 + b.len();
    let va = Value::Scalar(Term::Literal(a));
    let vb = Value::Scalar(Term::Literal(b));
    let vc = Value::Scalar(Term::Literal(c));
    lemma_power_of_one(va);
    lemma_power_of_one(vb);
    lemma_power_of_one(vc);
    let st1 = State::start().number(va);
    {
        let s = three_literals(a, '+', b, '*', c);
        lemma_three_literals(a, '+', b, '*', c);
        lemma_literal_at(s, 0, a, State::start(), env);
        assert(scan(s, n, st1, env) == scan(s, n + 1, st1.plus(), env));
        let st2 = st1.plus().number(vb);
        lemma_literal_at(s, n + 1, b, st1.plus(), env);
        assert(scan(s, m, st2, env) == scan(s, m + 1, st2.times(), env));
        let st3 = st2.times().number(vc);
        lemma_literal_at(s, m + 1, c, st2.times(), env);
        assert(scan(s, s.len() as int, st3, env) == Ok::<Value, Fault>(st3.finish()));
        assert(st3.times().factors == seq![vb, vc]);
        assert(st3.plus().summands == seq![product(seq![va]), product(seq![vb, vc])]);
    }
    {
        let s = three_literals(a, '*', b, '+', c);
        lemma_three_literals(a, '*', b, '+', c);
        lemma_literal_at(s, 0, a, State::start(), env);
        assert(scan(s, n, st1, env) == scan(s, n + 1, st1.times(), env));
        let st2 = st1.times().number(vb);
        lemma_literal_at(s, n + 1, b, st1.times(), env);
        assert(scan(s, m, st2, env) == scan(s, m + 1, st2.plus(), env));
        let st3 = st2.plus().number(vc);
        lemma_literal_at(s, m + 1, c, st2.plus(), env);
        assert(scan(s, s.len() as int, st3, env) == Ok::<Value, Fault>(st3.finish()));
        assert(st2.times().factors == seq![va, vb]);
        assert(st3.times().factors == seq![vc]);
        assert(st3.plus().summands == seq![product(seq![va, vb]), product(seq![vc])]);
    }
}

/// The line that assigns the value of `body` to the variable `name`.
pub open spec fn assignment(name: Seq<char>, body: Seq<char>) -> Seq<char> {
    seq!['#'] + name + seq!['='] + body
}

/// A variable that was assigned reads back. Where `body` has a value, the
/// line `#name=body` answers with it and binds `name` to it, and the text
/// `name` then evaluates to `0 + 1 * value`, unless a constant has that name.
pub proof fn lemma_assigned_then_read(name: Seq<char>, body: Seq<char>, env: Env)
    requires
        name.len() > 0,
        forall|k: int| 0 <= k < name.len() ==> is_letter(#[trigger] name[k]),
        !env.consts.contains_key(name),
        evaluate(body, env) is Ok,
    ensures
        answered(assignment(name, body), env) == Reply::Value(evaluate(body, env)->Ok_0),
        entered(assignment(name, body), env) == (Env {
            vars: env.vars.insert(name, evaluate(body, env)->Ok_0),
            last_number: evaluate(body, env)->Ok_0,
            ..env
        }),
        evaluate(name, entered(assignment(name, body), env)) == Ok::<Value, Fault>(
            sum(seq![product(seq![evaluate(body, env)->Ok_0])]),
        ),
{
    let line = assignment(name, body);
    let v = evaluate(body, env)->Ok_0;
    let eq = name.len() as int + 1;
    assert forall|k: int| 0 <= k < eq implies #[trigger] line[k] != '=' by {
        if k > 0 {
            assert(line[k] == name[k - 1]);
        }
    }
    assert(line[eq] == '=');
    lemma_find_unique(line, 0, '=', eq);
    assert(line.subrange(1, eq) == name);
    assert(line.subrange(eq + 1, line.len() as int) == body);
    assert(asked(line) == Asked::Evaluate(Some(name), body));
    let after = entered(line, env);
    assert(after.vars.contains_key(name));
    assert(after.symbol(name) == Some(Symbol::Variable(v)));
    lemma_run_end_unique(name, 1, CharClass::Letter, name.len() as int);
    assert(name.subrange(0, name.len() as int) == name);
    let st = State::start().number(v);
    assert(scan(name, 0, State::start(), after) == scan(name, name.len() as int, st, after));
    assert(st.plus().summands == seq![product(seq![v])]) by {
        reveal_with_fuel(fold, 2);
        assert(st.powers == seq![v]);
        assert(st.powers.drop_first() == Seq::<Value>::empty());
        assert(st.times().factors == seq![v]);
    }
}

/// Two inputs that differ in the case of ASCII letters alone are the same
/// line, and so are answered alike.
pub proof fn lemma_case_insensitive(a: Seq<char>, b: Seq<char>, env: Env)
    requires
        a.len() == b.len(),
        forall|k: int| 0 <= k < a.len() ==> lower(#[trigger] a[k]) == lower(b[k]),
    ensures
        normalized(a) == normalized(b),
        preview(normalized(a), env) == preview(normalized(b), env),
        answered(normalized(a), env) == answered(normalized(b), env),
        entered(normalized(a), env) == entered(normalized(b), env),
    decreases a.len(),
{
    if a.len() > 0 {
        assert forall|k: int| 0 <= k < a.drop_last().len() implies lower(
            #[trigger] a.drop_last()[k],
        ) == lower(b.drop_last()[k]) by {
            assert(a.drop_last()[k] == a[k]);
            assert(b.drop_last()[k] == b[k]);
        }
        lemma_case_insensitive(a.drop_last(), b.drop_last(), env);
        assert(lower(a.last()) == lower(b.last())) by {
            assert(a.last() == a[a.len() - 1]);
        }
        assert(is_space(a.last()) == is_space(b.last()));
    }
}

/// The line of an input of white space alone is empty.
pub proof fn lemma_blank(input: Seq<char>)
    requires
        forall|k: int| 0 <= k < input.len() ==> is_space(#[trigger] input[k]),
    ensures
        normalized(input).len() == 0,
    decreases input.len(),
{
    if input.len() > 0 {
        assert forall|k: int| 0 <= k < input.drop_last().len() implies is_space(
            #[trigger] input.drop_last()[k],
        ) by {
            assert(input.drop_last()[k] == input[k]);
        }
        lemma_blank(input.drop_last());
        assert(is_space(input[input.len() - 1]));
    }
}

/// An input that is empty, or white space alone, is answered with `...` by
/// either entry point, and changes nothing.
pub proof fn lemma_empty_input(input: Seq<char>, env: Env)
    requires
        forall|k: int| 0 <= k < input.len() ==> is_space(#[trigger] input[k]),
    ensures
        preview(normalized(input), env) == Reply::Text("..."@),
        answered(normalized(input), env) == Reply::Text("..."@),
        entered(normalized(input), env) == env,
{
    lemma_blank(input);
}

/// An assignment without `=` is answered with the error that says so, by
/// either entry point, and changes nothing.
pub proof fn lemma_assignment_without_sign(line: Seq<char>, env: Env)
    requires
        line.len() > 0,
        line[0] == '#',
        forall|k: int| 0 <= k < line.len() ==> #[trigger] line[k] != '=',
    ensures
        preview(line, env) == Reply::Text("Error: Missing \"=\" after variable name"@),
        answered(line, env) == Reply::Text("Error: Missing \"=\" after variable name"@),
        entered(line, env) == env,
{
    lemma_find_unique(line, 0, '=', line.len() as int);
}

/// No line changes the constants, the functions or the commands, and only a
/// command changes the history.
pub proof fn lemma_entered_keeps_built_ins(line: Seq<char>, env: Env)
    ensures
        entered(line, env).consts == env.consts,
        entered(line, env).functions == env.functions,
        entered(line, env).commands == env.commands,
        !(asked(line) is Command) ==> entered(line, env).history == env.history,
{
}

/// A parenthesis that is opened and never closed holds the text to its end:
/// what the scan gives from the parenthesis on is the value of all that is
/// left, read as one number, or the failure in it. Closing the parenthesis at
/// the end of the text changes nothing.
pub proof fn lemma_open_parenthesis(s: Seq<char>, i: int, st: State, env: Env)
    requires
        0 <= i < s.len(),
        s[i] == '(',
        forall|k: int| i < k < s.len() ==> #[trigger] s[k] != ')',
    ensures
        scan(s, i, st, env) == match evaluate(s.subrange(i + 1, s.len() as int), env) {
            Ok(v) => Ok::<Value, Fault>(st.number(v).finish()),
            Err(fault) => Err(fault),
        },
        scan(s.push(')'), i, st, env) == scan(s, i, st, env),
{
    let n = s.len() as int;
    lemma_find_unique(s, i + 1, ')', n);
    let closed = s.push(')');
    assert(closed[i] == '(');
    assert forall|k: int| i + 1 <= k < n implies #[trigger] closed[k] != ')' by {
        assert(closed[k] == s[k]);
    }
    lemma_find_unique(closed, i + 1, ')', n);
    assert(closed.subrange(i + 1, n) == s.subrange(i + 1, n));
    match evaluate(s.subrange(i + 1, n), env) {
        Ok(v) => {
            assert(scan(s, n, st.number(v), env) == Ok::<Value, Fault>(st.number(v).finish()));
            assert(scan(closed, n + 1, st.number(v), env) == Ok::<Value, Fault>(
                st.number(v).finish(),
            ));
        },
        Err(_) => {},
    }
}

/// A call that is opened and never closed takes the text to its end for its
/// arguments: what the scan gives from the function's name on is the result
/// of the function on them, read as one number, or the failure in them or in
/// the call. Closing the call at the end of the text changes nothing.
pub proof fn lemma_open_call(s: Seq<char>, i: int, end: int, st: State, env: Env)
    requires
        0 <= i < end <= s.len(),
        forall|k: int| i <= k < end ==> is_letter(#[trigger] s[k]),
        end < s.len() ==> !is_letter(s[end]),
        env.symbol(s.subrange(i, end)) is Some,
        env.symbol(s.subrange(i, end))->0 is DefaultFn,
        forall|k: int| end <= k < s.len() ==> #[trigger] s[k] != ')',
    ensures
        scan(s, i, st, env) == match evaluate_each(
            arguments(s.subrange(end, s.len() as int)),
            env,
            false,
        ) {
            Err(fault) => Err::<Value, Fault>(fault),
            Ok(args) => match env.symbol(s.subrange(i, end))->0->DefaultFn_0.result(args) {
                Err(fault) => Err(fault),
                Ok(v) => Ok(st.number(v).finish()),
            },
        },
        scan(s.push(')'), i, st, env) == scan(s, i, st, env),
{
    let n = s.len() as int;
    assert(is_letter(s[i]));
    lemma_run_end_unique(s, i + 1, CharClass::Letter, end);
    lemma_find_unique(s, end, ')', n);
    let closed = s.push(')');
    assert(closed[i] == s[i]);
    assert forall|k: int| i + 1 <= k < end implies CharClass::Letter.holds(
        #[trigger] closed[k],
    ) by {
        assert(closed[k] == s[k]);
    }
    assert(!is_letter(closed[end])) by {
        if end < n {
            assert(closed[end] == s[end]);
        }
    }
    lemma_run_end_unique(closed, i + 1, CharClass::Letter, end);
    assert forall|k: int| end <= k < n implies #[trigger] closed[k] != ')' by {
        assert(closed[k] == s[k]);
    }
    lemma_find_unique(closed, end, ')', n);
    assert(closed.subrange(i, end) == s.subrange(i, end));
    assert(closed.subrange(end, n) == s.subrange(end, n));
    let function = env.symbol(s.subrange(i, end))->0->DefaultFn_0;
    match evaluate_each(
        arguments(s.subrange(end, n)),
        env,
        false,
    ) {
        Err(_) => {},
        Ok(args) => match function.result(args) {
            Err(_) => {},
            Ok(v) => {
                assert(scan(s, n, st.number(v), env) == Ok::<Value, Fault>(
                    st.number(v).finish(),
                ));
                assert(scan(closed, n + 1, st.number(v), env) == Ok::<Value, Fault>(
                    st.number(v).finish(),
                ));
            },
        },
    }
}

} // verus!
