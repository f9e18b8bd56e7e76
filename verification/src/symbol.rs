use vstd::prelude::*;
use vstd::string::*;
use crate::value::LLVMValue;

verus! {

/// A binding of a declared name to the operand that holds its value.
#[derive(Debug)]
pub enum Symbol {
    Local { name: String, value: LLVMValue },
}

impl Symbol {
    /// The bound name, as a sequence of characters.
    pub open spec fn spec_name(&self) -> Seq<char> {
        match self {
            Symbol::Local { name, .. } => name@,
        }
    }

    /// The bound operand.
    pub open spec fn spec_value(&self) -> LLVMValue {
        match self {
            Symbol::Local { value, .. } => *value,
        }
    }

    /// The bound name.
    pub fn name(&self) -> (name: &str)
        ensures
            name@ == self.spec_name(),
    {
        match self {
            Symbol::Local { name, .. } => name.as_str(),
        }
    }

    /// The bound operand.
    pub fn value(&self) -> (value: &LLVMValue)
        ensures
            *value == self.spec_value(),
    {
        match self {
            Symbol::Local { value, .. } => value,
        }
    }
}

impl Clone for Symbol {
    fn clone(&self) -> (res: Self)
        ensures
            res == *self,
    {
        match self {
            Symbol::Local { name, value } => Symbol::Local {
                name: name.clone(),
                value: value.clone(),
            },
        }
    }
}

} // verus!
