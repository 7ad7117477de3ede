//! The evaluator: values, precedence accumulators and the character scan.
pub mod buffers;
pub mod expr;
pub mod grammar;
pub mod laws;
pub mod num_types;
pub mod request;

use crate::calculator::buffers::{
    values, AdditionBuffer, Collapse, ExponentBuffer, MultiplicationBuffer,
};
use crate::calculator::expr::{Expr, Term, MINUS_ONE};
use crate::calculator::grammar::{evaluate, evaluate_each, index_behind, scan, vector_of, State};
use crate::calculator::num_types::{shown, terms, NumType, Value};
use crate::calculator::request::{asked, assignment_target, read_request, target, Asked, Request};
use crate::log::symbol_type::SymbolType;
use crate::log::{Env, Log};
use crate::text::{
    arguments, check_decimal, components, find_char, is_decimal, lemma_arguments_short,
    lemma_components_short, normalized, parse_index, run_end, scan_run, split_arguments,
    split_components, subtext, text_of, texts, CharClass,
};
use vstd::prelude::*;
use vstd::string::StringExecFns;

verus! {

/// Why an evaluation failed.
#[derive(Debug, Clone)]
pub enum CalculatorError {
    /// A name that is no constant, variable or function.
    UnknownSymbol(String),
    /// A run of digits and decimal points that is no decimal literal.
    ParseNumberErrror,
    /// A function called with too few arguments, or with a vector where it
    /// takes a scalar, or a scalar where it takes a vector.
    MissingFunctionParameters(String),
    /// A command that does not exist.
    InvalidCommand(String),
    /// A vector literal with a component that is a vector.
    RecursiveVectors,
    /// A component asked of a scalar, or by an index that is no number.
    ComponentAccessError,
    /// A component asked of a vector that is too short.
    ComponentDNE,
}

/// The mathematical form of a [`CalculatorError`].
pub enum Fault {
    UnknownSymbol(Seq<char>),
    ParseNumberErrror,
    MissingFunctionParameters(Seq<char>),
    InvalidCommand(Seq<char>),
    RecursiveVectors,
    ComponentAccessError,
    ComponentDNE,
}

impl Fault {
    /// The line that is shown for the fault.
    pub open spec fn message(self) -> Seq<char> {
        match self {
            Fault::UnknownSymbol(s) => "Error: Could not find symbol \""@ + s + "\""@,
            Fault::ParseNumberErrror => "Error: Invalid number"@,
            Fault::MissingFunctionParameters(s) => "Error: Function \""@ + s
                + "\" has missing or invalid parameters"@,
            Fault::InvalidCommand(s) => "Error: Command \""@ + s + "\" not recognized"@,
            Fault::RecursiveVectors => "Error: Vectors may not contain other vectors"@,
            Fault::ComponentAccessError => "Error: Cannot access components of a scalar value"@,
            Fault::ComponentDNE => "Error: Component does not exist"@,
        }
    }
}

impl View for CalculatorError {
    type V = Fault;

    open spec fn view(&self) -> Fault {
        match self {
            CalculatorError::UnknownSymbol(s) => Fault::UnknownSymbol(s@),
            CalculatorError::ParseNumberErrror => Fault::ParseNumberErrror,
            CalculatorError::MissingFunctionParameters(s) => Fault::MissingFunctionParameters(s@),
            CalculatorError::InvalidCommand(s) => Fault::InvalidCommand(s@),
            CalculatorError::RecursiveVectors => Fault::RecursiveVectors,
            CalculatorError::ComponentAccessError => Fault::ComponentAccessError,
            CalculatorError::ComponentDNE => Fault::ComponentDNE,
        }
    }
}

impl CalculatorError {
    /// The line that is shown for the error.
    pub fn to_string(&self) -> (r: String)
        ensures
            r@ == self@.message(),
    {
        match self {
            CalculatorError::UnknownSymbol(s) => {
                let mut r = String::from_str("Error: Could not find symbol \"");
                r.append(s.as_str());
                r.append("\"");
                r
            },
            CalculatorError::ParseNumberErrror => String::from_str("Error: Invalid number"),
            CalculatorError::MissingFunctionParameters(s) => {
                let mut r = String::from_str("Error: Function \"");
                r.append(s.as_str());
                r.append("\" has missing or invalid parameters");
                r
            },
            CalculatorError::InvalidCommand(s) => {
                let mut r = String::from_str("Error: Command \"");
                r.append(s.as_str());
                r.append("\" not recognized");
                r
            },
            CalculatorError::RecursiveVectors => String::from_str(
                "Error: Vectors may not contain other vectors",
            ),
            CalculatorError::ComponentAccessError => String::from_str(
                "Error: Cannot access components of a scalar value",
            ),
            CalculatorError::ComponentDNE => String::from_str("Error: Component does not exist"),
        }
    }
}

/// The mathematical form of what an evaluation gives.
pub open spec fn outcome(r: Result<NumType, CalculatorError>) -> Result<Value, Fault> {
    match r {
        Ok(n) => Ok(n@),
        Err(e) => Err(e@),
    }
}

/// What three accumulators and the flag stand for.
pub open spec fn state(
    e: &ExponentBuffer,
    m: &MultiplicationBuffer,
    a: &AdditionBuffer,
    previous_number: bool,
) -> State {
    State {
        powers: e.held(),
        factors: m.held(),
        dividing: m.dividing(),
        summands: a.held(),
        previous_number,
    }
}

/// A failure among the first texts is the failure of them all.
proof fn lemma_first_failure(all: Seq<Seq<char>>, n: int, env: Env, flat: bool)
    requires
        0 <= n <= all.len(),
        evaluate_each(all.take(n), env, flat) is Err,
    ensures
        evaluate_each(all, env, flat) == evaluate_each(all.take(n), env, flat),
    decreases all.len() - n,
{
    if n < all.len() {
        assert(all.take(n + 1).drop_last() == all.take(n));
        lemma_first_failure(all, n + 1, env, flat);
    } else {
        assert(all.take(n) == all);
    }
}

/// Evaluates each of `pieces` in order, up to the first failure.
fn parse_each(pieces: &Vec<Vec<char>>, log: &Log, flat: bool, Ghost(bound): Ghost<nat>) -> (r:
    Result<Vec<NumType>, CalculatorError>)
    requires
        forall|k: int| 0 <= k < pieces@.len() ==> (#[trigger] pieces@[k])@.len() <= bound,
    ensures
        match r {
            Ok(v) => evaluate_each(texts(pieces@), log@, flat) == Ok::<Seq<Value>, Fault>(
                values(v@),
            ),
            Err(e) => evaluate_each(texts(pieces@), log@, flat) == Err::<Seq<Value>, Fault>(e@),
        },
    decreases bound, 2nat,
{
    let ghost all = texts(pieces@);
    let mut out: Vec<NumType> = Vec::new();
    let mut k: usize = 0;
    assert(all.take(0) == Seq::<Seq<char>>::empty());
    assert(values(out@) == Seq::<Value>::empty());
    while k < pieces.len()
        invariant
            k <= pieces.len(),
            all == texts(pieces@),
            forall|j: int| 0 <= j < pieces@.len() ==> (#[trigger] pieces@[j])@.len() <= bound,
            evaluate_each(all.take(k as int), log@, flat) == Ok::<Seq<Value>, Fault>(values(out@)),
        decreases pieces.len() - k,
    {
        proof {
            let next = all.take(k + 1);
            assert(next.drop_last() == all.take(k as int));
            assert(next.last() == pieces@[k as int]@);
        }
        match parse(&pieces[k], log) {
            Err(e) => {
                proof {
                    lemma_first_failure(all, k + 1, log@, flat);
                }
                return Err(e);
            },
            Ok(v) => {
                if flat {
                    if let NumType::Vector(_) = v {
                        proof {
                            lemma_first_failure(all, k + 1, log@, flat);
                        }
                        return Err(CalculatorError::RecursiveVectors);
                    }
                }
                let ghost before = values(out@);
                out.push(v);
                assert(values(out@) == before.push(v@));
            },
        }
        k += 1;
    }
    assert(all.take(pieces.len() as int) == all);
    Ok(out)
}

/// Evaluates the text of a vector literal, without its brackets, to a vector.
pub fn parse_to_vec(content: &Vec<char>, log: &Log) -> (r: Result<NumType, CalculatorError>)
    ensures
        outcome(r) == match evaluate_each(components(content@), log@, true) {
            Ok(parts) => Ok::<Value, Fault>(vector_of(parts)),
            Err(fault) => Err(fault),
        },
    decreases content@.len(), 3nat,
{
    let pieces = split_components(content);
    proof {
        lemma_components_short(content@, 0);
        assert forall|k: int| 0 <= k < pieces@.len() implies (#[trigger] pieces@[k])@.len()
            <= content@.len() by {
            assert(texts(pieces@)[k] == pieces@[k]@);
        }
    }
    match parse_each(&pieces, log, true, Ghost(content@.len())) {
        Err(e) => Err(e),
        Ok(parts) => {
            let ghost given = values(parts@);
            let mut v: Vec<Expr> = Vec::new();
            for part in it: parts.into_iter()
                invariant
                    values(it.seq()) == given,
                    evaluate_each(components(content@), log@, true) == Ok::<Seq<Value>, Fault>(
                        given,
                    ),
                    v.len() == it.index(),
                    forall|k: int| 0 <= k < it.index() ==> v@[k]@ == given[k]->Scalar_0,
            {
                proof {
                    lemma_each_flat(components(content@), log@, it.index());
                    assert(part@ == given[it.index()]);
                }
                match part {
                    NumType::Scalar(x) => {
                        v.push(x);
                    },
                    NumType::Vector(_) => {
                        assert(false);
                    },
                }
            }
            let r = NumType::Vector(v);
            assert(r@->Vector_0 =~= vector_of(given)->Vector_0);
            Ok(r)
        },
    }
}

/// Where the texts evaluate flat, each of the values is a scalar.
proof fn lemma_each_flat(all: Seq<Seq<char>>, env: Env, k: int)
    requires
        evaluate_each(all, env, true) is Ok,
        0 <= k < evaluate_each(all, env, true)->Ok_0.len(),
    ensures
        evaluate_each(all, env, true)->Ok_0[k] is Scalar,
    decreases all.len(),
{
    if all.len() > 0 {
        let before = evaluate_each(all.drop_last(), env, true);
        if k < before->Ok_0.len() {
            lemma_each_flat(all.drop_last(), env, k);
        }
    }
}

/// Evaluates the arguments of a call, given the text between the function's
/// name and the closing parenthesis.
pub fn get_function_params(content: &Vec<char>, log: &Log) -> (r: Result<
    Vec<NumType>,
    CalculatorError,
>)
    ensures
        match r {
            Ok(v) => evaluate_each(arguments(content@), log@, false) == Ok::<Seq<Value>, Fault>(
                values(v@),
            ),
            Err(e) => evaluate_each(arguments(content@), log@, false) == Err::<Seq<Value>, Fault>(
                e@,
            ),
        },
    decreases content@.len(), 3nat,
{
    let pieces = split_arguments(content);
    proof {
        lemma_arguments_short(content@, 0);
        assert forall|k: int| 0 <= k < pieces@.len() implies (#[trigger] pieces@[k])@.len()
            <= content@.len() by {
            assert(texts(pieces@)[k] == pieces@[k]@);
        }
    }
    parse_each(&pieces, log, false, Ghost(content@.len()))
}

/// Reads the decimal literal that starts at `from`. Gives the literal and the
/// position behind it.
fn parse_literal(input: &Vec<char>, from: usize) -> (r: Result<(Expr, usize), CalculatorError>)
    requires
        from < input.len(),
    ensures
        ({
            let end = run_end(input@, from + 1, CharClass::DigitOrPoint);
            let literal = input@.subrange(from as int, end);
            match r {
                Ok((e, next)) => is_decimal(literal) && e@ == Term::Literal(
                    literal,
                ) && next == end && from < next <= input.len(),
                Err(e) => !is_decimal(literal) && e@ == Fault::ParseNumberErrror,
            }
        }),
{
    let end = scan_run(input, from + 1, CharClass::DigitOrPoint);
    let literal = subtext(input, from, end);
    if check_decimal(&literal) {
        Ok((Expr::Literal(literal), end))
    } else {
        Err(CalculatorError::ParseNumberErrror)
    }
}

/// Evaluates a text in the environment `log`.
pub fn parse(input: &Vec<char>, log: &Log) -> (r: Result<NumType, CalculatorError>)
    ensures
        outcome(r) == evaluate(input@, log@),
    decreases input@.len(), 1nat,
{
    let mut e_buffer = ExponentBuffer::new();
    let mut m_buffer = MultiplicationBuffer::new();
    let mut a_buffer = AdditionBuffer::new();
    let mut previous_number: bool = false;
    let mut i: usize = 0;
    let ghost s = input@;
    let ghost env = log@;
    while i < input.len()
        invariant
            i <= input.len(),
            s == input@,
            env == log@,
            scan(s, i as int, state(&e_buffer, &m_buffer, &a_buffer, previous_number), env)
                == evaluate(s, env),
        decreases input.len() - i,
    {
        let c = input[i];
        let ghost st = state(&e_buffer, &m_buffer, &a_buffer, previous_number);
        if c == '(' {
            let close = find_char(input, i + 1, ')');
            let inner = subtext(input, i + 1, close);
            match parse(&inner, log) {
                Err(e) => {
                    return Err(e);
                },
                Ok(v) => {
                    e_buffer.push(v);
                },
            }
            previous_number = true;
            i = if close < input.len() {
                close + 1
            } else {
                close
            };
        } else if c == '[' {
            let close = find_char(input, i + 1, ']');
            let inner = subtext(input, i + 1, close);
            match parse_to_vec(&inner, log) {
                Err(e) => {
                    return Err(e);
                },
                Ok(v) => {
                    e_buffer.push(v);
                },
            }
            previous_number = true;
            i = if close < input.len() {
                close + 1
            } else {
                close
            };
        } else if c == '.' && previous_number {
            let (index, next) = read_index(input, i);
            let component = match e_buffer.get_back() {
                Some(NumType::Vector(v)) => match index {
                    None => {
                        return Err(CalculatorError::ComponentAccessError);
                    },
                    Some(n) => {
                        if n < v.len() {
                            assert(terms(v@)[n as int] == v@[n as int]@);
                            v[n].duplicate()
                        } else {
                            return Err(CalculatorError::ComponentDNE);
                        }
                    },
                },
                _ => {
                    return Err(CalculatorError::ComponentAccessError);
                },
            };
            e_buffer.remove_back();
            e_buffer.push(NumType::Scalar(component));
            i = next;
        } else if CharClass::DigitOrPoint.test(c) {
            match parse_literal(input, i) {
                Err(e) => {
                    return Err(e);
                },
                Ok((literal, next)) => {
                    e_buffer.push(NumType::Scalar(literal));
                    i = next;
                },
            }
            previous_number = true;
        } else if c == '*' {
            m_buffer.push(e_buffer.collapse());
            previous_number = false;
            i += 1;
        } else if c == '/' {
            m_buffer.push(e_buffer.collapse());
            m_buffer.divide_next();
            previous_number = false;
            i += 1;
        } else if c == '+' {
            m_buffer.push(e_buffer.collapse());
            a_buffer.push(m_buffer.collapse());
            previous_number = false;
            i += 1;
        } else if c == '-' {
            if previous_number {
                m_buffer.push(e_buffer.collapse());
                a_buffer.push(m_buffer.collapse());
                previous_number = false;
            }
            m_buffer.push(NumType::Scalar(Expr::Bits(MINUS_ONE)));
            i += 1;
        } else if CharClass::Letter.test(c) {
            let end = scan_run(input, i + 1, CharClass::Letter);
            let name = text_of(&subtext(input, i, end));
            match log.search_symbol(name.as_str()) {
                None => {
                    return Err(CalculatorError::UnknownSymbol(name));
                },
                Some(SymbolType::Variable(n)) => {
                    e_buffer.push(n.duplicate());
                    i = end;
                },
                Some(SymbolType::DefaultFn(function)) => {
                    let close = find_char(input, end, ')');
                    let given = subtext(input, end, close);
                    let args = match get_function_params(&given, log) {
                        Err(e) => {
                            return Err(e);
                        },
                        Ok(args) => args,
                    };
                    match function.apply(args) {
                        Err(e) => {
                            return Err(e);
                        },
                        Ok(v) => {
                            e_buffer.push(v);
                        },
                    }
                    i = if close < input.len() {
                        close + 1
                    } else {
                        close
                    };
                },
                Some(SymbolType::UserFn) => {
                    i = end;
                },
            }
            previous_number = true;
        } else if c == '\\' {
            e_buffer.push(log.last().duplicate());
            i += 1;
        } else {
            i += 1;
        }
    }
    m_buffer.push(e_buffer.collapse());
    a_buffer.push(m_buffer.collapse());
    Ok(a_buffer.collapse())
}

/// Reads the index that stands behind the point at `at`. Gives the index, if
/// it is one, and the position behind it.
fn read_index(input: &Vec<char>, at: usize) -> (r: (Option<usize>, usize))
    requires
        at < input.len(),
    ensures
        r.0 == index_behind(input@, at as int).0,
        r.1 == index_behind(input@, at as int).1,
        at < r.1 <= input.len(),
{
    if at + 1 >= input.len() {
        (Some(0), input.len())
    } else {
        let c = input[at + 1];
        if c == 'x' {
            (Some(0), at + 2)
        } else if c == 'y' {
            (Some(1), at + 2)
        } else if c == 'z' {
            (Some(2), at + 2)
        } else {
            let end = scan_run(input, at + 2, CharClass::Digit);
            let written = subtext(input, at + 1, end);
            (parse_index(&written), end)
        }
    }
}

/// The answer to a line of input.
#[derive(Debug)]
pub enum Answer {
    /// A line to show as it is.
    Text(String),
    /// A value, to be computed and shown.
    Value(NumType),
}

/// The mathematical form of an [`Answer`].
pub enum Reply {
    Text(Seq<char>),
    Value(Value),
}

impl View for Answer {
    type V = Reply;

    open spec fn view(&self) -> Reply {
        match self {
            Answer::Text(s) => Reply::Text(s@),
            Answer::Value(n) => Reply::Value(n@),
        }
    }
}

impl Reply {
    /// Whether `count` texts are what it takes to write the reply: one for
    /// each number of a value, any number of them for a text.
    pub open spec fn takes(self, count: nat) -> bool {
        match self {
            Reply::Text(_) => true,
            Reply::Value(v) => count == v.count(),
        }
    }

    /// The line that shows the reply, given how each number of a value is
    /// written: a text as it is, a value behind ` = `.
    pub open spec fn line(self, parts: Seq<Seq<char>>) -> Seq<char> {
        match self {
            Reply::Text(s) => s,
            Reply::Value(v) => " = "@ + v.written(parts),
        }
    }
}

impl Answer {
    /// The line that shows the answer, given in `parts` how each number of a
    /// value is written: one text for a scalar, one for each component of a
    /// vector.
    pub fn display(&self, parts: &Vec<String>) -> (r: String)
        requires
            self@.takes(parts@.len()),
        ensures
            r@ == self@.line(shown(parts@)),
    {
        match self {
            Answer::Text(s) => s.clone(),
            Answer::Value(n) => {
                let mut r = String::from_str(" = ");
                r.append(n.display(parts).as_str());
                r
            },
        }
    }
}

/// The reply for what evaluates to `r`.
pub open spec fn reply(r: Result<Value, Fault>) -> Reply {
    match r {
        Ok(v) => Reply::Value(v),
        Err(fault) => Reply::Text(fault.message()),
    }
}

/// The reply to a line without a change of the environment. Nothing gives
/// `...`. A command is looked up, not run.
pub open spec fn preview(line: Seq<char>, env: Env) -> Reply {
    match asked(line) {
        Asked::Nothing => Reply::Text("..."@),
        Asked::Malformed => Reply::Text("Error: Missing \"=\" after variable name"@),
        Asked::Command(name) => if env.command(name) is Some {
            Reply::Text("Enter to run command..."@)
        } else {
            Reply::Text(Fault::InvalidCommand(name).message())
        },
        Asked::Evaluate(_, body) => reply(evaluate(body, env)),
    }
}

/// The environment after a line has been entered. A command has its effect.
/// A value becomes the last result, and the value of the variable that the
/// line assigns to. Anything else leaves the environment as it is.
pub open spec fn entered(line: Seq<char>, env: Env) -> Env {
    match asked(line) {
        Asked::Command(name) => match env.command(name) {
            Some(command) => command.effect(env),
            None => env,
        },
        Asked::Evaluate(target, body) => match evaluate(body, env) {
            Ok(v) => Env {
                vars: match target {
                    Some(name) => env.vars.insert(name, v),
                    None => env.vars,
                },
                last_number: v,
                ..env
            },
            Err(_) => env,
        },
        _ => env,
    }
}

/// The reply to a line that has been entered: that of [`preview`], but for
/// a command, which answers for itself.
pub open spec fn answered(line: Seq<char>, env: Env) -> Reply {
    match asked(line) {
        Asked::Command(name) => match env.command(name) {
            Some(command) => Reply::Text(command.message()),
            None => Reply::Text(Fault::InvalidCommand(name).message()),
        },
        _ => preview(line, env),
    }
}

fn answer_of(r: Result<NumType, CalculatorError>) -> (a: Answer)
    ensures
        a@ == reply(outcome(r)),
{
    match r {
        Ok(n) => Answer::Value(n),
        Err(e) => Answer::Text(e.to_string()),
    }
}

/// Answers a line of input without changing anything.
pub fn calculate(input: &str, log: &Log) -> (r: Answer)
    ensures
        r@ == preview(normalized(input@), log@),
{
    match read_request(input) {
        Request::Nothing => Answer::Text(String::from_str("...")),
        Request::Malformed => Answer::Text(
            String::from_str("Error: Missing \"=\" after variable name"),
        ),
        Request::Command(name) => {
            let name = text_of(&name);
            match log.search_command(name.as_str()) {
                Some(_) => Answer::Text(String::from_str("Enter to run command...")),
                None => Answer::Text(CalculatorError::InvalidCommand(name).to_string()),
            }
        },
        Request::Evaluate(_, body) => answer_of(parse(&body, log)),
    }
}

/// Answers a line of input that has been entered: runs a command, and binds
/// the variable that the line assigns to.
pub fn calculate_assign(input: &str, log: &mut Log) -> (r: Answer)
    ensures
        r@ == answered(normalized(input@), old(log)@),
        final(log)@ == entered(normalized(input@), old(log)@),
{
    match read_request(input) {
        Request::Nothing => Answer::Text(String::from_str("...")),
        Request::Malformed => Answer::Text(
            String::from_str("Error: Missing \"=\" after variable name"),
        ),
        Request::Command(name) => {
            let name = text_of(&name);
            match log.search_command(name.as_str()) {
                Some(command) => Answer::Text(command.run(log)),
                None => Answer::Text(CalculatorError::InvalidCommand(name).to_string()),
            }
        },
        Request::Evaluate(target, body) => {
            let result = parse(&body, log);
            if let Ok(n) = &result {
                if let Some(name) = target {
                    log.add_var(text_of(&name), n);
                }
                log.set_last(n.duplicate());
            }
            answer_of(result)
        },
    }
}

/// Stores the numbers that a host has computed for the value of a line that
/// was entered: `computed` becomes the last result, and the value of the
/// variable that the line assigns to.
pub fn settle(input: &str, log: &mut Log, computed: NumType)
    ensures
        final(log)@ == (Env {
            vars: match target(input@) {
                Some(name) => old(log)@.vars.insert(name, computed@),
                None => old(log)@.vars,
            },
            last_number: computed@,
            ..old(log)@
        }),
{
    if let Some(name) = assignment_target(input) {
        log.add_var(name, &computed);
    }
    log.set_last(computed);
}

} // verus!
