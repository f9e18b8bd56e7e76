use vstd::prelude::*;
use vstd::std_specs::cmp::PartialEqSpecImpl;
use vstd::string::*;
use crate::error::Error;
use crate::ident::Token;

verus! {

/// The type tag of an operand in the emitted intermediate representation.
#[derive(Debug)]
pub enum RegisterFormat {
    Void,
    Integer,
    Boolean,
    Identifier { id_type: Box<RegisterFormat> },
    Pointer { pointee: Box<RegisterFormat> },
}

impl Clone for RegisterFormat {
    fn clone(&self) -> (res: Self)
        ensures
            res == *self,
        decreases *self,
    {
        match self {
            RegisterFormat::Void => RegisterFormat::Void,
            RegisterFormat::Integer => RegisterFormat::Integer,
            RegisterFormat::Boolean => RegisterFormat::Boolean,
            RegisterFormat::Identifier { id_type } => RegisterFormat::Identifier {
                id_type: Box::new((&**id_type).clone()),
            },
            RegisterFormat::Pointer { pointee } => RegisterFormat::Pointer {
                pointee: Box::new((&**pointee).clone()),
            },
        }
    }
}

impl PartialEq for RegisterFormat {
    fn eq(&self, other: &RegisterFormat) -> (r: bool)
        decreases *self,
    {
        match (self, other) {
            (RegisterFormat::Void, RegisterFormat::Void) => true,
            (RegisterFormat::Integer, RegisterFormat::Integer) => true,
            (RegisterFormat::Boolean, RegisterFormat::Boolean) => true,
            (RegisterFormat::Identifier { id_type: a }, RegisterFormat::Identifier { id_type: b }) => {
                (&**a).eq(&**b)
            },
            (RegisterFormat::Pointer { pointee: a }, RegisterFormat::Pointer { pointee: b }) => {
                (&**a).eq(&**b)
            },
            _ => false,
        }
    }
}

impl Eq for RegisterFormat {}

impl PartialEqSpecImpl for RegisterFormat {
    open spec fn obeys_eq_spec() -> bool {
        true
    }

    open spec fn eq_spec(&self, other: &RegisterFormat) -> bool {
        *self == *other
    }
}

impl RegisterFormat {
    /// The spelling of this format as an operand type in emitted code. A
    /// reference to a name is spelled as a pointer to what the name holds.
    pub open spec fn spec_format_type(&self) -> Seq<char>
        decreases self,
    {
        match self {
            RegisterFormat::Void => "void"@,
            RegisterFormat::Integer => "i64"@,
            RegisterFormat::Boolean => "i1"@,
            RegisterFormat::Identifier { id_type } => id_type.spec_format_type() + "*"@,
            RegisterFormat::Pointer { pointee } => pointee.spec_format_type() + "*"@,
        }
    }

    /// The name of this format in messages to the user. Indirection is not
    /// shown: a pointer or reference reads as what it leads to.
    pub open spec fn spec_display(&self) -> Seq<char>
        decreases self,
    {
        match self {
            RegisterFormat::Void => "void"@,
            RegisterFormat::Boolean => "bool"@,
            RegisterFormat::Integer => "int"@,
            RegisterFormat::Pointer { pointee } => pointee.spec_display(),
            RegisterFormat::Identifier { id_type } => id_type.spec_display(),
        }
    }

    /// The format of a pointer to a value of this format.
    pub fn to_pointer(&self) -> (pointer: RegisterFormat)
        ensures
            pointer == (RegisterFormat::Pointer { pointee: Box::new(*self) }),
    {
        RegisterFormat::Pointer { pointee: Box::new(self.clone()) }
    }

    /// Whether values of this format and of `other` can be compared: only two
    /// integers can, whatever the operator.
    pub fn can_compare_to(&self, other: &RegisterFormat, op: &Token) -> (comparable: bool)
        ensures
            comparable == (*self is Integer && *other is Integer),
    {
        match (self, other) {
            (RegisterFormat::Integer, RegisterFormat::Integer) => true,
            _ => false,
        }
    }

    /// The spelling of this format as an operand type in emitted code.
    pub fn format_type(&self) -> (text: String)
        ensures
            text@ == self.spec_format_type(),
        decreases self,
    {
        match self {
            RegisterFormat::Void => "void".to_owned(),
            RegisterFormat::Identifier { id_type } => {
                let mut text = id_type.format_type();
                text.append("*");
                text
            },
            RegisterFormat::Integer => "i64".to_owned(),
            RegisterFormat::Boolean => "i1".to_owned(),
            RegisterFormat::Pointer { pointee } => {
                let mut text = pointee.format_type();
                text.append("*");
                text
            },
        }
    }

    /// Checks that `other` is this very format.
    pub fn expect(&self, other: &RegisterFormat) -> (checked: Result<(), Error>)
        ensures
            match checked {
                Ok(_) => *self == *other,
                Err(e) => *self != *other && e == (Error::InvalidAssignment {
                    received: *other,
                    expected: *self,
                }),
            },
    {
        if self == other {
            Ok(())
        } else {
            Err(Error::InvalidAssignment { received: other.clone(), expected: self.clone() })
        }
    }

    /// The name of this format in messages to the user.
    pub fn to_string(&self) -> (text: String)
        ensures
            text@ == self.spec_display(),
        decreases self,
    {
        match self {
            RegisterFormat::Void => "void".to_owned(),
            RegisterFormat::Boolean => "bool".to_owned(),
            RegisterFormat::Integer => "int".to_owned(),
            RegisterFormat::Pointer { pointee } => pointee.to_string(),
            RegisterFormat::Identifier { id_type } => id_type.to_string(),
        }
    }
}

} // verus!
