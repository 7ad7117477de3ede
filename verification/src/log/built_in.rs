//! The constants, functions and commands that every session starts with.
use crate::calculator::expr::{BinaryOp, Expr, Term, UnaryOp, E, PI, TAU, TWO, ZERO};
use crate::calculator::num_types::{terms, NumType, Value};
use crate::calculator::buffers::values;
use crate::calculator::{outcome, CalculatorError, Fault};
use crate::log::table::Table;
use crate::log::{Env, Log};
use vstd::prelude::*;
use vstd::string::StringExecFns;

verus! {

/// A built-in function.
#[derive(Clone, Copy, PartialEq, Eq, Debug)]
pub enum BuiltIn {
    Sin,
    Cos,
    Tan,
    Asin,
    Acos,
    Atan,
    Abs,
    Round,
    Ceil,
    Floor,
    /// The logarithm of the first argument to the base of the second.
    Log,
    Ln,
    Sqrt,
    /// Degrees to radians.
    Rad,
    /// Radians to degrees.
    Deg,
    /// The Euclidean norm of a vector.
    Mag,
}

/// How a built-in function treats its arguments.
#[derive(Clone, Copy, PartialEq, Eq, Debug)]
pub enum Arity {
    /// One scalar.
    OfScalar(UnaryOp),
    /// One scalar, or one vector, taken component by component.
    OfEach(UnaryOp),
    /// Two scalars.
    OfTwoScalars(BinaryOp),
    /// One vector.
    OfVector,
}

impl View for BuiltIn {
    type V = BuiltIn;

    open spec fn view(&self) -> BuiltIn {
        *self
    }
}

/// The sum of the squares of `v`, added up from 0 in order.
pub open spec fn sum_of_squares(v: Seq<Term>) -> Term
    decreases v.len(),
{
    if v.len() == 0 {
        Term::Bits(ZERO)
    } else {
        Term::binary(
            BinaryOp::Add,
            sum_of_squares(v.drop_last()),
            Term::binary(BinaryOp::Pow, v.last(), Term::Bits(TWO)),
        )
    }
}

impl BuiltIn {
    /// The name that the function is called by.
    pub open spec fn name(self) -> Seq<char> {
        match self {
            BuiltIn::Sin => "sin"@,
            BuiltIn::Cos => "cos"@,
            BuiltIn::Tan => "tan"@,
            BuiltIn::Asin => "asin"@,
            BuiltIn::Acos => "acos"@,
            BuiltIn::Atan => "atan"@,
            BuiltIn::Abs => "abs"@,
            BuiltIn::Round => "round"@,
            BuiltIn::Ceil => "ceil"@,
            BuiltIn::Floor => "floor"@,
            BuiltIn::Log => "log"@,
            BuiltIn::Ln => "ln"@,
            BuiltIn::Sqrt => "sqrt"@,
            BuiltIn::Rad => "rad"@,
            BuiltIn::Deg => "deg"@,
            BuiltIn::Mag => "mag"@,
        }
    }

    /// How the function treats its arguments.
    pub open spec fn arity(self) -> Arity {
        match self {
            BuiltIn::Sin => Arity::OfScalar(UnaryOp::Sin),
            BuiltIn::Cos => Arity::OfScalar(UnaryOp::Cos),
            BuiltIn::Tan => Arity::OfScalar(UnaryOp::Tan),
            BuiltIn::Asin => Arity::OfScalar(UnaryOp::Asin),
            BuiltIn::Acos => Arity::OfScalar(UnaryOp::Acos),
            BuiltIn::Atan => Arity::OfScalar(UnaryOp::Atan),
            BuiltIn::Abs => Arity::OfEach(UnaryOp::Abs),
            BuiltIn::Round => Arity::OfEach(UnaryOp::Round),
            BuiltIn::Ceil => Arity::OfEach(UnaryOp::Ceil),
            BuiltIn::Floor => Arity::OfEach(UnaryOp::Floor),
            BuiltIn::Log => Arity::OfTwoScalars(BinaryOp::Log),
            BuiltIn::Ln => Arity::OfScalar(UnaryOp::Ln),
            BuiltIn::Sqrt => Arity::OfScalar(UnaryOp::Sqrt),
            BuiltIn::Rad => Arity::OfScalar(UnaryOp::ToRadians),
            BuiltIn::Deg => Arity::OfScalar(UnaryOp::ToDegrees),
            BuiltIn::Mag => Arity::OfVector,
        }
    }

    /// What the function gives for `args`. It reads the arguments that it
    /// takes from the front and passes over any further ones. Too few
    /// arguments, or one of the wrong kind, are an error that names the
    /// function.
    pub open spec fn result(self, args: Seq<Value>) -> Result<Value, Fault> {
        let missing = Err(Fault::MissingFunctionParameters(self.name()));
        match self.arity() {
            Arity::OfScalar(op) => if args.len() >= 1 && args[0] is Scalar {
                Ok(args[0].map(op))
            } else {
                missing
            },
            Arity::OfEach(op) => if args.len() >= 1 {
                Ok(args[0].map(op))
            } else {
                missing
            },
            Arity::OfTwoScalars(op) => if args.len() >= 2 && args[0] is Scalar
                && args[1] is Scalar {
                Ok(args[0].combine(op, args[1]))
            } else {
                missing
            },
            Arity::OfVector => if args.len() >= 1 && args[0] is Vector {
                Ok(
                    Value::Scalar(
                        Term::unary(UnaryOp::Sqrt, sum_of_squares(args[0]->Vector_0)),
                    ),
                )
            } else {
                missing
            },
        }
    }

    /// The name that the function is called by.
    pub fn name_text(self) -> (r: &'static str)
        ensures
            r@ == self.name(),
    {
        match self {
            BuiltIn::Sin => "sin",
            BuiltIn::Cos => "cos",
            BuiltIn::Tan => "tan",
            BuiltIn::Asin => "asin",
            BuiltIn::Acos => "acos",
            BuiltIn::Atan => "atan",
            BuiltIn::Abs => "abs",
            BuiltIn::Round => "round",
            BuiltIn::Ceil => "ceil",
            BuiltIn::Floor => "floor",
            BuiltIn::Log => "log",
            BuiltIn::Ln => "ln",
            BuiltIn::Sqrt => "sqrt",
            BuiltIn::Rad => "rad",
            BuiltIn::Deg => "deg",
            BuiltIn::Mag => "mag",
        }
    }

    /// How the function treats its arguments.
    pub fn how(self) -> (r: Arity)
        ensures
            r == self.arity(),
    {
        match self {
            BuiltIn::Sin => Arity::OfScalar(UnaryOp::Sin),
            BuiltIn::Cos => Arity::OfScalar(UnaryOp::Cos),
            BuiltIn::Tan => Arity::OfScalar(UnaryOp::Tan),
            BuiltIn::Asin => Arity::OfScalar(UnaryOp::Asin),
            BuiltIn::Acos => Arity::OfScalar(UnaryOp::Acos),
            BuiltIn::Atan => Arity::OfScalar(UnaryOp::Atan),
            BuiltIn::Abs => Arity::OfEach(UnaryOp::Abs),
            BuiltIn::Round => Arity::OfEach(UnaryOp::Round),
            BuiltIn::Ceil => Arity::OfEach(UnaryOp::Ceil),
            BuiltIn::Floor => Arity::OfEach(UnaryOp::Floor),
            BuiltIn::Log => Arity::OfTwoScalars(BinaryOp::Log),
            BuiltIn::Ln => Arity::OfScalar(UnaryOp::Ln),
            BuiltIn::Sqrt => Arity::OfScalar(UnaryOp::Sqrt),
            BuiltIn::Rad => Arity::OfScalar(UnaryOp::ToRadians),
            BuiltIn::Deg => Arity::OfScalar(UnaryOp::ToDegrees),
            BuiltIn::Mag => Arity::OfVector,
        }
    }

    fn missing(self) -> (r: Result<NumType, CalculatorError>)
        ensures
            r is Err,
            r->Err_0@ == Fault::MissingFunctionParameters(self.name()),
    {
        Err(CalculatorError::MissingFunctionParameters(String::from_str(self.name_text())))
    }

    /// Applies the function to `args`.
    pub fn apply(self, args: Vec<NumType>) -> (r: Result<NumType, CalculatorError>)
        ensures
            outcome(r) == self.result(values(args@)),
    {
        let mut args = args;
        let ghost given = values(args@);
        if args.len() == 0 {
            return self.missing();
        }
        let first = args.remove(0);
        assert(first@ == given[0]);
        match self.how() {
            Arity::OfScalar(op) => match first {
                NumType::Scalar(_) => Ok(first.map(op)),
                NumType::Vector(_) => self.missing(),
            },
            Arity::OfEach(op) => Ok(first.map(op)),
            Arity::OfTwoScalars(op) => {
                if args.len() == 0 {
                    return self.missing();
                }
                let second = args.remove(0);
                assert(second@ == given[1]);
                match (&first, &second) {
                    (NumType::Scalar(_), NumType::Scalar(_)) => Ok(first.combine(op, &second)),
                    _ => self.missing(),
                }
            },
            Arity::OfVector => match first {
                NumType::Scalar(_) => self.missing(),
                NumType::Vector(v) => {
                    let ghost parts = terms(v@);
                    let mut total = Expr::Bits(ZERO);
                    assert(parts.take(0) == Seq::<Term>::empty());
                    for x in it: v.into_iter()
                        invariant
                            terms(it.seq()) == parts,
                            total@ == sum_of_squares(parts.take(it.index())),
                    {
                        proof {
                            let next = parts.take(it.index() + 1);
                            assert(next.drop_last() == parts.take(it.index()));
                            assert(next.last() == x@);
                        }
                        total = Expr::binary(
                            BinaryOp::Add,
                            total,
                            Expr::binary(BinaryOp::Pow, x, Expr::Bits(TWO)),
                        );
                    }
                    assert(parts.take(parts.len() as int) == parts);
                    Ok(NumType::Scalar(Expr::unary(UnaryOp::Sqrt, total)))
                },
            },
        }
    }
}

/// A command.
#[derive(Clone, Copy, PartialEq, Eq, Debug)]
pub enum Command {
    /// Forget the variables and empty the history.
    Clear,
    /// Forget the variables.
    ClearVars,
    /// Empty the history.
    ClearHistory,
}

impl View for Command {
    type V = Command;

    open spec fn view(&self) -> Command {
        *self
    }
}

impl Command {
    /// What the command answers.
    pub open spec fn message(self) -> Seq<char> {
        match self {
            Command::Clear => "All data cleared"@,
            Command::ClearVars => "Variable data cleared"@,
            Command::ClearHistory => "Calculator history cleared"@,
        }
    }

    /// The environment after the command has run in `env`.
    pub open spec fn effect(self, env: Env) -> Env {
        match self {
            Command::Clear => Env { vars: Map::empty(), history: Seq::empty(), ..env },
            Command::ClearVars => Env { vars: Map::empty(), ..env },
            Command::ClearHistory => Env { history: Seq::empty(), ..env },
        }
    }

    /// Runs the command on `log` and gives its answer.
    pub fn run(self, log: &mut Log) -> (r: String)
        ensures
            r@ == self.message(),
            final(log)@ == self.effect(old(log)@),
    {
        match self {
            Command::Clear => {
                log.clear();
                String::from_str("All data cleared")
            },
            Command::ClearVars => {
                log.clear_vars();
                String::from_str("Variable data cleared")
            },
            Command::ClearHistory => {
                log.clear_history();
                String::from_str("Calculator history cleared")
            },
        }
    }
}

/// The built-in constants, by name.
pub open spec fn constants() -> Map<Seq<char>, Value> {
    Map::<Seq<char>, Value>::empty().insert("pi"@, Value::Scalar(Term::Bits(PI))).insert(
        "e"@,
        Value::Scalar(Term::Bits(E)),
    ).insert("tau"@, Value::Scalar(Term::Bits(TAU)))
}

/// The built-in functions, by name.
pub open spec fn functions() -> Map<Seq<char>, BuiltIn> {
    Map::<Seq<char>, BuiltIn>::empty().insert(BuiltIn::Sin.name(), BuiltIn::Sin).insert(
        BuiltIn::Cos.name(),
        BuiltIn::Cos,
    ).insert(BuiltIn::Tan.name(), BuiltIn::Tan).insert(BuiltIn::Asin.name(), BuiltIn::Asin).insert(
        BuiltIn::Acos.name(),
        BuiltIn::Acos,
    ).insert(BuiltIn::Atan.name(), BuiltIn::Atan).insert(BuiltIn::Abs.name(), BuiltIn::Abs).insert(
        BuiltIn::Round.name(),
        BuiltIn::Round,
    ).insert(BuiltIn::Ceil.name(), BuiltIn::Ceil).insert(
        BuiltIn::Floor.name(),
        BuiltIn::Floor,
    ).insert(BuiltIn::Log.name(), BuiltIn::Log).insert(BuiltIn::Ln.name(), BuiltIn::Ln).insert(
        BuiltIn::Sqrt.name(),
        BuiltIn::Sqrt,
    ).insert(BuiltIn::Rad.name(), BuiltIn::Rad).insert(BuiltIn::Deg.name(), BuiltIn::Deg).insert(
        BuiltIn::Mag.name(),
        BuiltIn::Mag,
    )
}

/// The built-in commands, by name.
pub open spec fn commands() -> Map<Seq<char>, Command> {
    Map::<Seq<char>, Command>::empty().insert("clear"@, Command::Clear).insert(
        "clearvars"@,
        Command::ClearVars,
    ).insert("clearhistory"@, Command::ClearHistory)
}

/// The table of the built-in constants.
pub fn get_constants_hashmap() -> (c: Table<NumType>)
    ensures
        c@ == constants(),
{
    let mut c: Table<NumType> = Table::new();
    c.insert(String::from_str("pi"), NumType::Scalar(Expr::Bits(PI)));
    c.insert(String::from_str("e"), NumType::Scalar(Expr::Bits(E)));
    c.insert(String::from_str("tau"), NumType::Scalar(Expr::Bits(TAU)));
    c
}

fn register(f: &mut Table<BuiltIn>, function: BuiltIn)
    ensures
        final(f)@ == old(f)@.insert(function.name(), function),
{
    f.insert(String::from_str(function.name_text()), function);
}

/// The table of the built-in functions.
pub fn get_default_functions_hashmap() -> (f: Table<BuiltIn>)
    ensures
        f@ == functions(),
{
    let mut f: Table<BuiltIn> = Table::new();
    register(&mut f, BuiltIn::Sin);
    register(&mut f, BuiltIn::Cos);
    register(&mut f, BuiltIn::Tan);
    register(&mut f, BuiltIn::Asin);
    register(&mut f, BuiltIn::Acos);
    register(&mut f, BuiltIn::Atan);
    register(&mut f, BuiltIn::Abs);
    register(&mut f, BuiltIn::Round);
    register(&mut f, BuiltIn::Ceil);
    register(&mut f, BuiltIn::Floor);
    register(&mut f, BuiltIn::Log);
    register(&mut f, BuiltIn::Ln);
    register(&mut f, BuiltIn::Sqrt);
    register(&mut f, BuiltIn::Rad);
    register(&mut f, BuiltIn::Deg);
    register(&mut f, BuiltIn::Mag);
    f
}

/// The table of the built-in commands.
pub fn get_default_commands_hashmap() -> (c: Table<Command>)
    ensures
        c@ == commands(),
{
    let mut c: Table<Command> = Table::new();
    c.insert(String::from_str("clear"), Command::Clear);
    c.insert(String::from_str("clearvars"), Command::ClearVars);
    c.insert(String::from_str("clearhistory"), Command::ClearHistory);
    c
}

} // verus!
