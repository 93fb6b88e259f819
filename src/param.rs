//! Declared field types and their resolution to parameter descriptors.

use vstd::prelude::*;
use crate::text::same_text;

verus! {

/// The integer types a command field may be declared with.
#[derive(Clone, Copy, Debug, PartialEq, Eq, Structural)]
pub enum IntKind {
    I8,
    I16,
    I32,
    I64,
    I128,
    Isize,
    U8,
    U16,
    U32,
    U64,
    U128,
    Usize,
}

impl IntKind {
    pub open spec fn is_signed(self) -> bool {
        match self {
            IntKind::I8 | IntKind::I16 | IntKind::I32 | IntKind::I64 | IntKind::I128
            | IntKind::Isize => true,
            _ => false,
        }
    }

    /// Smallest value of the type.
    pub open spec fn min_value(self) -> int {
        match self {
            IntKind::I8 => i8::MIN as int,
            IntKind::I16 => i16::MIN as int,
            IntKind::I32 => i32::MIN as int,
            IntKind::I64 => i64::MIN as int,
            IntKind::I128 => i128::MIN as int,
            IntKind::Isize => isize::MIN as int,
            _ => 0,
        }
    }

    /// Largest value of the type.
    pub open spec fn max_value(self) -> int {
        match self {
            IntKind::I8 => i8::MAX as int,
            IntKind::I16 => i16::MAX as int,
            IntKind::I32 => i32::MAX as int,
            IntKind::I64 => i64::MAX as int,
            IntKind::I128 => i128::MAX as int,
            IntKind::Isize => isize::MAX as int,
            IntKind::U8 => u8::MAX as int,
            IntKind::U16 => u16::MAX as int,
            IntKind::U32 => u32::MAX as int,
            IntKind::U64 => u64::MAX as int,
            IntKind::U128 => u128::MAX as int,
            IntKind::Usize => usize::MAX as int,
        }
    }
}

/// The wire-level type of a parameter, as advertised to the host.
#[derive(Clone, Copy, Debug, PartialEq, Eq, Structural)]
pub enum ParamType {
    ParamInt,
    ParamFloat,
    ParamBool,
    ParamString,
    ParamEnum,
}

/// How a token bound to a field is read.
#[derive(Clone, Copy, Debug, PartialEq, Eq, Structural)]
pub enum ValueKind {
    Int(IntKind),
    Float,
    Bool,
    Text,
}

impl ValueKind {
    pub open spec fn spec_param_type(self) -> ParamType {
        match self {
            ValueKind::Int(_) => ParamType::ParamInt,
            ValueKind::Float => ParamType::ParamFloat,
            ValueKind::Bool => ParamType::ParamBool,
            ValueKind::Text => ParamType::ParamString,
        }
    }

    /// The parameter type advertised for fields read this way.
    #[verifier::when_used_as_spec(spec_param_type)]
    pub fn param_type(self) -> (r: ParamType)
        ensures
            r == self.spec_param_type(),
    {
        match self {
            ValueKind::Int(_) => ParamType::ParamInt,
            ValueKind::Float => ParamType::ParamFloat,
            ValueKind::Bool => ParamType::ParamBool,
            ValueKind::Text => ParamType::ParamString,
        }
    }
}

/// The declared type of a command field, as far as resolution reads it.
#[derive(Debug)]
pub enum FieldType {
    /// A path type, by the identifier of its last segment and the first
    /// type argument of that segment, if any (`Option<u8>`: `Option`, `u8`).
    Path { ident: String, arg: Option<Box<FieldType>> },
    /// A reference `&T`.
    Reference(Box<FieldType>),
    /// Any other type (tuple, array, slice, ...).
    Other,
}

/// What a type identifier is read as: floats, integers, `bool`, and text
/// for everything else.
pub open spec fn kind_of_ident(s: Seq<char>) -> ValueKind {
    if s == "f32"@ || s == "f64"@ {
        ValueKind::Float
    } else if s == "i8"@ {
        ValueKind::Int(IntKind::I8)
    } else if s == "i16"@ {
        ValueKind::Int(IntKind::I16)
    } else if s == "i32"@ {
        ValueKind::Int(IntKind::I32)
    } else if s == "i64"@ {
        ValueKind::Int(IntKind::I64)
    } else if s == "i128"@ {
        ValueKind::Int(IntKind::I128)
    } else if s == "isize"@ {
        ValueKind::Int(IntKind::Isize)
    } else if s == "u8"@ {
        ValueKind::Int(IntKind::U8)
    } else if s == "u16"@ {
        ValueKind::Int(IntKind::U16)
    } else if s == "u32"@ {
        ValueKind::Int(IntKind::U32)
    } else if s == "u64"@ {
        ValueKind::Int(IntKind::U64)
    } else if s == "u128"@ {
        ValueKind::Int(IntKind::U128)
    } else if s == "usize"@ {
        ValueKind::Int(IntKind::Usize)
    } else if s == "bool"@ {
        ValueKind::Bool
    } else {
        ValueKind::Text
    }
}

/// Resolution of a declared type: an `Option<T>` is `T` made optional,
/// a reference is what it refers to, and a path is read by its identifier.
pub open spec fn resolve(ty: FieldType) -> (ValueKind, bool)
    decreases ty,
{
    match ty {
        FieldType::Path { ident, arg } => {
            if ident@ == "Option"@ && arg is Some {
                (resolve(*arg->Some_0).0, true)
            } else {
                (kind_of_ident(ident@), false)
            }
        },
        FieldType::Reference(inner) => resolve(*inner),
        FieldType::Other => (ValueKind::Text, false),
    }
}

/// Reads a type identifier.
pub fn ident_kind(ident: &str) -> (r: ValueKind)
    ensures
        r == kind_of_ident(ident@),
{
    proof {
        reveal_strlit("f32");
        reveal_strlit("f64");
        reveal_strlit("i8");
        reveal_strlit("i16");
        reveal_strlit("i32");
        reveal_strlit("i64");
        reveal_strlit("i128");
        reveal_strlit("isize");
        reveal_strlit("u8");
        reveal_strlit("u16");
        reveal_strlit("u32");
        reveal_strlit("u64");
        reveal_strlit("u128");
        reveal_strlit("usize");
        reveal_strlit("bool");
    }
    if same_text(ident, "f32") || same_text(ident, "f64") {
        ValueKind::Float
    } else if same_text(ident, "i8") {
        ValueKind::Int(IntKind::I8)
    } else if same_text(ident, "i16") {
        ValueKind::Int(IntKind::I16)
    } else if same_text(ident, "i32") {
        ValueKind::Int(IntKind::I32)
    } else if same_text(ident, "i64") {
        ValueKind::Int(IntKind::I64)
    } else if same_text(ident, "i128") {
        ValueKind::Int(IntKind::I128)
    } else if same_text(ident, "isize") {
        ValueKind::Int(IntKind::Isize)
    } else if same_text(ident, "u8") {
        ValueKind::Int(IntKind::U8)
    } else if same_text(ident, "u16") {
        ValueKind::Int(IntKind::U16)
    } else if same_text(ident, "u32") {
        ValueKind::Int(IntKind::U32)
    } else if same_text(ident, "u64") {
        ValueKind::Int(IntKind::U64)
    } else if same_text(ident, "u128") {
        ValueKind::Int(IntKind::U128)
    } else if same_text(ident, "usize") {
        ValueKind::Int(IntKind::Usize)
    } else if same_text(ident, "bool") {
        ValueKind::Bool
    } else {
        ValueKind::Text
    }
}

/// Resolves a declared field type to how its tokens are read and whether
/// the parameter is optional.
pub fn get_param_type(ty: &FieldType) -> (r: (ValueKind, bool))
    ensures
        r == resolve(*ty),
    decreases ty,
{
    match ty {
        FieldType::Path { ident, arg } => {
            proof {
                reveal_strlit("Option");
            }
            if same_text(ident.as_str(), "Option") {
                match arg {
                    Some(inner) => {
                        let (k, _) = get_param_type(inner);
                        return (k, true);
                    },
                    None => {},
                }
            }
            (ident_kind(ident.as_str()), false)
        },
        FieldType::Reference(inner) => get_param_type(inner),
        FieldType::Other => (ValueKind::Text, false),
    }
}

} // verus!
