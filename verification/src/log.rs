//! The environment of an evaluation: constants, variables, built-in functions
//! and commands, the last result and the history.
pub mod built_in;
pub mod symbol_type;
pub mod table;

use crate::calculator::expr::{Expr, Term, ONE};
use crate::calculator::num_types::{NumType, Value};
use crate::log::built_in::{
    commands, constants, functions, get_constants_hashmap, get_default_commands_hashmap,
    get_default_functions_hashmap, BuiltIn, Command,
};
use crate::log::symbol_type::{Symbol, SymbolType};
use crate::log::table::Table;
use vstd::prelude::*;

verus! {

/// The mathematical form of a [`Log`].
pub struct Env {
    /// The constants, by name.
    pub consts: Map<Seq<char>, Value>,
    /// The variables, by name.
    pub vars: Map<Seq<char>, Value>,
    /// The functions, by name.
    pub functions: Map<Seq<char>, BuiltIn>,
    /// The commands, by name.
    pub commands: Map<Seq<char>, Command>,
    /// The last result.
    pub last_number: Value,
    /// The inputs with their outputs, oldest first.
    pub history: Seq<(Seq<char>, Seq<char>)>,
}

impl Env {
    /// The environment that holds nothing, with 1 as its last result.
    pub open spec fn empty() -> Env {
        Env {
            consts: Map::empty(),
            vars: Map::empty(),
            functions: Map::empty(),
            commands: Map::empty(),
            last_number: Value::Scalar(Term::Bits(ONE)),
            history: Seq::empty(),
        }
    }

    /// The environment of a new session: the built-in constants, functions and
    /// commands, no variable, no history, and 1 as the last result.
    pub open spec fn initial() -> Env {
        Env {
            consts: constants(),
            functions: functions(),
            commands: commands(),
            ..Env::empty()
        }
    }

    /// What `name` means: a constant before a variable of the same name, a
    /// variable before a function.
    pub open spec fn symbol(self, name: Seq<char>) -> Option<Symbol> {
        if self.consts.contains_key(name) {
            Some(Symbol::Variable(self.consts[name]))
        } else if self.vars.contains_key(name) {
            Some(Symbol::Variable(self.vars[name]))
        } else if self.functions.contains_key(name) {
            Some(Symbol::DefaultFn(self.functions[name]))
        } else {
            None
        }
    }

    /// The command named `name`.
    pub open spec fn command(self, name: Seq<char>) -> Option<Command> {
        if self.commands.contains_key(name) {
            Some(self.commands[name])
        } else {
            None
        }
    }
}

/// The state of a session.
pub struct Log {
    /// The inputs with their outputs, oldest first.
    pub history: Vec<(String, String)>,
    /// The last result.
    pub last_number: NumType,
    vars: Table<NumType>,
    consts: Table<NumType>,
    default_functions: Table<BuiltIn>,
    commands: Table<Command>,
}

/// The mathematical form of a history.
pub open spec fn lines(history: Seq<(String, String)>) -> Seq<(Seq<char>, Seq<char>)> {
    Seq::new(history.len(), |i: int| (history[i].0@, history[i].1@))
}

impl View for Log {
    type V = Env;

    closed spec fn view(&self) -> Env {
        Env {
            consts: self.consts@,
            vars: self.vars@,
            functions: self.default_functions@,
            commands: self.commands@,
            last_number: self.last_number@,
            history: lines(self.history@),
        }
    }
}

impl Default for Log {
    fn default() -> (r: Log)
        ensures
            r@ == Env::empty(),
    {
        let r = Log {
            last_number: NumType::Scalar(Expr::Bits(ONE)),
            history: Vec::new(),
            vars: Table::new(),
            consts: Table::new(),
            default_functions: Table::new(),
            commands: Table::new(),
        };
        assert(lines(r.history@) =~= Seq::empty());
        r
    }
}

impl Log {
    /// The state of a new session.
    pub fn new() -> (r: Log)
        ensures
            r@ == Env::initial(),
    {
        let r = Log {
            last_number: NumType::Scalar(Expr::Bits(ONE)),
            history: Vec::new(),
            vars: Table::new(),
            consts: get_constants_hashmap(),
            default_functions: get_default_functions_hashmap(),
            commands: get_default_commands_hashmap(),
        };
        assert(lines(r.history@) =~= Seq::empty());
        r
    }

    /// Adds an input and its output to the history.
    pub fn push_results(&mut self, input: &str, output: &str)
        ensures
            final(self)@ == (Env { history: old(self)@.history.push((input@, output@)), ..old(self)@ }),
    {
        self.history.push((input.to_owned(), output.to_owned()));
        assert(lines(self.history@) =~= lines(old(self).history@).push((input@, output@)));
    }

    /// Binds the variable `name` to `val`.
    pub fn add_var(&mut self, name: String, val: &NumType)
        ensures
            final(self)@ == (Env { vars: old(self)@.vars.insert(name@, val@), ..old(self)@ }),
    {
        self.vars.insert(name, val.duplicate());
    }

    /// Empties the history.
    pub fn clear_history(&mut self)
        ensures
            final(self)@ == (Env { history: Seq::empty(), ..old(self)@ }),
    {
        self.history.clear();
        assert(lines(self.history@) =~= Seq::empty());
    }

    /// Forgets the variables.
    pub fn clear_vars(&mut self)
        ensures
            final(self)@ == (Env { vars: Map::empty(), ..old(self)@ }),
    {
        self.vars.clear();
    }

    /// Forgets the variables and empties the history.
    pub fn clear(&mut self)
        ensures
            final(self)@ == (Env { vars: Map::empty(), history: Seq::empty(), ..old(self)@ }),
    {
        self.vars.clear();
        self.history.clear();
        assert(lines(self.history@) =~= Seq::empty());
    }

    /// The last result.
    pub fn last(&self) -> (r: &NumType)
        ensures
            r@ == self@.last_number,
    {
        &self.last_number
    }

    /// Makes `val` the last result.
    pub fn set_last(&mut self, val: NumType)
        ensures
            final(self)@ == (Env { last_number: val@, ..old(self)@ }),
    {
        self.last_number = val;
    }

    /// What `symbol` means in the session.
    #[allow(clippy::manual_map)]
    pub fn search_symbol(&self, symbol: &str) -> (r: Option<SymbolType<'_>>)
        ensures
            r is Some <==> self@.symbol(symbol@) is Some,
            r is Some ==> r->0@ == self@.symbol(symbol@)->0,
    {
        if let Some(s) = self.consts.get(symbol) {
            Some(SymbolType::Variable(s))
        } else if let Some(s) = self.vars.get(symbol) {
            Some(SymbolType::Variable(s))
        } else if let Some(f) = self.default_functions.get(symbol) {
            Some(SymbolType::DefaultFn(*f))
        } else {
            None
        }
    }

    /// The command named `name`.
    pub fn search_command(&self, name: &str) -> (r: Option<Command>)
        ensures
            r == self@.command(name@),
    {
        match self.commands.get(name) {
            Some(c) => Some(*c),
            None => None,
        }
    }
}

} // verus!
