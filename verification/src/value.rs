use vstd::prelude::*;
use vstd::string::*;
use crate::decimal::{decimal, render_integer};
use crate::error::Error;
use crate::format::RegisterFormat;
use crate::ident::Identifier;
use crate::table::{lookup, SymbolTable};

verus! {

/// A literal operand.
#[derive(Debug)]
pub enum Constant {
    Integer(i64),
}

impl Clone for Constant {
    fn clone(&self) -> (res: Self)
        ensures
            res == *self,
    {
        match self {
            Constant::Integer(n) => Constant::Integer(*n),
        }
    }
}

impl Constant {
    /// The format of this literal, fixed by its kind.
    pub open spec fn spec_format(&self) -> RegisterFormat {
        match self {
            Constant::Integer(_) => RegisterFormat::Integer,
        }
    }

    /// This literal as it is written in emitted code: in decimal.
    pub open spec fn spec_display(&self) -> Seq<char> {
        match self {
            Constant::Integer(x) => decimal(*x as int),
        }
    }

    /// The spelling of this literal's type in emitted code.
    pub fn const_type(&self) -> (text: String)
        ensures
            text@ == self.spec_format().spec_format_type(),
    {
        match self {
            Constant::Integer(_) => "i64".to_owned(),
        }
    }

    /// The format of this literal.
    pub fn format(&self) -> (format: RegisterFormat)
        ensures
            format == self.spec_format(),
    {
        match self {
            Constant::Integer(_) => RegisterFormat::Integer,
        }
    }

    /// This literal as it is written in emitted code.
    pub fn to_string(&self) -> (text: String)
        ensures
            text@ == self.spec_display(),
    {
        match self {
            Constant::Integer(x) => render_integer(*x),
        }
    }
}

/// A named operand slot of the emitted code.
#[derive(Debug)]
pub struct VirtualRegister {
    id: String,
    format: RegisterFormat,
}

/// What a register is, as a value: its name and its type tag.
pub struct RegisterView {
    pub id: Seq<char>,
    pub format: RegisterFormat,
}

impl View for VirtualRegister {
    type V = RegisterView;

    closed spec fn view(&self) -> RegisterView {
        RegisterView { id: self.id@, format: self.format }
    }
}

impl Clone for VirtualRegister {
    fn clone(&self) -> (res: Self)
        ensures
            res == *self,
    {
        VirtualRegister { id: self.id.clone(), format: self.format.clone() }
    }
}

impl VirtualRegister {
    /// A register named `id` that holds a value of `format`.
    pub fn new(id: String, format: RegisterFormat) -> (register: Self)
        ensures
            register@ == (RegisterView { id: id@, format }),
    {
        Self { id, format }
    }

    /// The register named `id` that refers to what `identifier` names in
    /// `symbol_table`. Only a plain name can be referred to; its register is
    /// one indirection above the format of the value bound to the name.
    pub fn from_identifier(id: String, identifier: Identifier, symbol_table: &SymbolTable) -> (made:
        Result<Self, Error>)
        requires
            identifier is Symbol ==> symbol_table@.len() > 0,
        ensures
            match identifier.spec_name() {
                Some(name) => match lookup(symbol_table@, name) {
                    Some(symbol) => made is Ok && made->Ok_0@ == (RegisterView {
                        id: id@,
                        format: RegisterFormat::Identifier {
                            id_type: Box::new(symbol.spec_value().spec_format()),
                        },
                    }),
                    None => made is Err && made->Err_0.is_undefined(name),
                },
                None => made is Err && made->Err_0.is_invalid_identifier(identifier),
            },
    {
        match &identifier {
            Identifier::Symbol(s) => {
                match symbol_table.get(s.as_str()) {
                    Ok(symbol) => Ok(
                        Self {
                            id,
                            format: RegisterFormat::Identifier {
                                id_type: Box::new(symbol.value().format()),
                            },
                        },
                    ),
                    Err(e) => Err(e),
                }
            },
            _ => {
                let mut expected: Vec<Identifier> = Vec::new();
                expected.push(Identifier::Symbol(String::new()));
                Err(Error::InvalidIdentifier { expected, received: identifier })
            },
        }
    }

    /// The name of this register.
    pub fn id(&self) -> (id: &str)
        ensures
            id@ == self@.id,
    {
        self.id.as_str()
    }

    /// The format of the value that this register holds.
    pub fn format(&self) -> (format: &RegisterFormat)
        ensures
            *format == self@.format,
    {
        &self.format
    }

    /// The spelling of this register's type in emitted code.
    pub fn reg_type(&self) -> (text: String)
        ensures
            text@ == self@.format.spec_format_type(),
    {
        self.format.format_type()
    }

    /// This register as it is written in emitted code: its name after a
    /// percent sign.
    pub fn to_string(&self) -> (text: String)
        ensures
            text@ == "%"@ + self@.id,
    {
        let mut text = "%".to_owned();
        text.append(self.id());
        text
    }
}

/// An operand: a register, a literal, or nothing at all.
#[derive(Debug)]
pub enum LLVMValue {
    VirtualRegister(VirtualRegister),
    Constant(Constant),
    /// No operand.
    Absent,
}

impl Clone for LLVMValue {
    fn clone(&self) -> (res: Self)
        ensures
            res == *self,
    {
        match self {
            LLVMValue::VirtualRegister(r) => LLVMValue::VirtualRegister(r.clone()),
            LLVMValue::Constant(c) => LLVMValue::Constant(c.clone()),
            LLVMValue::Absent => LLVMValue::Absent,
        }
    }
}

impl LLVMValue {
    /// The format of this operand; that of no operand is void.
    pub open spec fn spec_format(&self) -> RegisterFormat {
        match self {
            LLVMValue::Absent => RegisterFormat::Void,
            LLVMValue::Constant(c) => c.spec_format(),
            LLVMValue::VirtualRegister(r) => r@.format,
        }
    }

    /// The spelling of this operand's type in emitted code.
    pub open spec fn spec_val_type(&self) -> Seq<char> {
        match self {
            LLVMValue::Absent => "none"@,
            LLVMValue::Constant(c) => c.spec_format().spec_format_type(),
            LLVMValue::VirtualRegister(r) => r@.format.spec_format_type(),
        }
    }

    /// This operand as it is written in emitted code.
    pub open spec fn spec_display(&self) -> Seq<char> {
        match self {
            LLVMValue::Absent => "None"@,
            LLVMValue::VirtualRegister(r) => "%"@ + r@.id,
            LLVMValue::Constant(c) => c.spec_display(),
        }
    }

    /// The spelling of this operand's type in emitted code.
    pub fn val_type(&self) -> (text: String)
        ensures
            text@ == self.spec_val_type(),
    {
        match self {
            LLVMValue::Absent => "none".to_owned(),
            LLVMValue::Constant(c) => c.const_type(),
            LLVMValue::VirtualRegister(v) => v.reg_type(),
        }
    }

    /// The format of this operand.
    pub fn format(&self) -> (format: RegisterFormat)
        ensures
            format == self.spec_format(),
    {
        match self {
            LLVMValue::Absent => RegisterFormat::Void,
            LLVMValue::Constant(c) => c.format(),
            LLVMValue::VirtualRegister(r) => r.format().clone(),
        }
    }

    /// This operand as it is written in emitted code.
    pub fn to_string(&self) -> (text: String)
        ensures
            text@ == self.spec_display(),
    {
        match self {
            LLVMValue::Absent => "None".to_owned(),
            LLVMValue::VirtualRegister(vr) => vr.to_string(),
            LLVMValue::Constant(c) => c.to_string(),
        }
    }
}

} // verus!
