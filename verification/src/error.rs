use vstd::prelude::*;
use crate::format::RegisterFormat;
use crate::ident::Identifier;

verus! {

/// Why a resolution or a type check failed.
#[derive(Debug)]
#[allow(inconsistent_fields)]
pub enum Error {
    /// No binding of `name` is reachable in the table that was asked.
    SymbolUndefined { name: String },
    /// An identifier of the wrong kind stood where one of `expected` was needed.
    InvalidIdentifier { expected: Vec<Identifier>, received: Identifier },
    /// A value of format `received` was given where `expected` was required.
    InvalidAssignment { received: RegisterFormat, expected: RegisterFormat },
}

impl Error {
    /// Whether this is the report that `name` is undefined.
    pub open spec fn is_undefined(&self, name: Seq<char>) -> bool {
        self matches Error::SymbolUndefined { name: n } && n@ == name
    }

    /// Whether this is the report that `received` stood where only a plain
    /// name is usable.
    pub open spec fn is_invalid_identifier(&self, received: Identifier) -> bool {
        &&& self matches Error::InvalidIdentifier { expected, received: r }
        &&& r == received
        &&& expected@.len() == 1
        &&& expected@[0].spec_name() == Some(Seq::<char>::empty())
    }
}

} // verus!
