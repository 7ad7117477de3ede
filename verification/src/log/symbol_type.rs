//! What a name can mean.
use crate::calculator::num_types::{NumType, Value};
use crate::log::built_in::BuiltIn;
use vstd::prelude::*;

verus! {

/// What a name means in an environment.
pub enum SymbolType<'a> {
    /// A constant or a variable, with its value.
    Variable(&'a NumType),
    /// A built-in function.
    DefaultFn(BuiltIn),
    /// A function that a user defined. No name means this yet, and the
    /// evaluator passes over one that does.
    UserFn,
}

/// The mathematical form of a [`SymbolType`].
pub enum Symbol {
    Variable(Value),
    DefaultFn(BuiltIn),
    UserFn,
}

impl<'a> View for SymbolType<'a> {
    type V = Symbol;

    open spec fn view(&self) -> Symbol {
        match self {
            SymbolType::Variable(n) => Symbol::Variable(n@),
            SymbolType::DefaultFn(f) => Symbol::DefaultFn(*f),
            SymbolType::UserFn => Symbol::UserFn,
        }
    }
}

} // verus!
