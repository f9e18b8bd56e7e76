use vstd::prelude::*;

verus! {

/// A reference as the parser hands it over: either a plain name or a form
/// that names nothing.
#[derive(Debug)]
pub enum Identifier {
    /// A plain name, looked up in a symbol table.
    Symbol(String),
    /// An integer literal standing where a name was expected.
    Literal(i64),
}

impl Identifier {
    /// The name carried by a plain-name identifier.
    pub open spec fn spec_name(&self) -> Option<Seq<char>> {
        match self {
            Identifier::Symbol(s) => Some(s@),
            Identifier::Literal(_) => None,
        }
    }
}

impl Clone for Identifier {
    fn clone(&self) -> (res: Self)
        ensures
            res == *self,
    {
        match self {
            Identifier::Symbol(s) => Identifier::Symbol(s.clone()),
            Identifier::Literal(n) => Identifier::Literal(*n),
        }
    }
}

/// A comparison operator of the source language.
#[derive(Debug, Clone, Copy, PartialEq, Eq, Structural)]
pub enum Token {
    Equal,
    NotEqual,
    Less,
    LessEqual,
    Greater,
    GreaterEqual,
}

} // verus!
