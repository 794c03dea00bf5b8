//! The value types of the language's numeric tower, and the two questions
//! asked of them: which casts lose nothing, and which type two operands of a
//! binary operation are brought to.

use vstd::prelude::*;

verus! {

/// A binary operator of the expression language.
#[derive(Clone, Copy, Debug, PartialEq, Eq, Structural)]
pub enum BinaryOperator {
    Add,
    Subtract,
    Multiply,
    Divide,
    Modulo,
    Equal,
    NotEqual,
    Less,
    Greater,
    LessEqual,
    GreaterEqual,
}

/// A unary operator of the expression language.
#[derive(Clone, Copy, Debug, PartialEq, Eq, Structural)]
pub enum UnaryOperator {
    Minus,
    Not,
}

/// The type of a value.
#[derive(Clone, Copy, Debug, PartialEq, Eq, Structural)]
pub enum Type {
    I8,
    I16,
    I32,
    I64,
    I128,
    U8,
    U16,
    U32,
    U64,
    U128,
    F32,
    F64,
    Usize,
    Bool,
    String,
    Str,
    Any,
}

/// The type that a function parameter asks for.
#[derive(Clone, Copy, Debug, PartialEq, Eq, Structural)]
pub enum ParamType {
    String,
    Bool,
    Number(Type),
    Any,
}

/// The width in bits of a signed integer type.
pub open spec fn signed_width(t: Type) -> Option<nat> {
    match t {
        Type::I8 => Some(8),
        Type::I16 => Some(16),
        Type::I32 => Some(32),
        Type::I64 => Some(64),
        Type::I128 => Some(128),
        _ => None,
    }
}

/// The width in bits of an unsigned integer type of fixed width.
pub open spec fn unsigned_width(t: Type) -> Option<nat> {
    match t {
        Type::U8 => Some(8),
        Type::U16 => Some(16),
        Type::U32 => Some(32),
        Type::U64 => Some(64),
        Type::U128 => Some(128),
        _ => None,
    }
}

/// Tells whether every value of `from` is a value of the other type `to`:
/// an integer type widens to a larger one of the same signedness, `F32` to
/// `F64`, and `Str` to `String`.
pub open spec fn widens(from: Type, to: Type) -> bool {
    ||| signed_width(from) is Some && signed_width(to) is Some && signed_width(from)->0
        < signed_width(to)->0
    ||| unsigned_width(from) is Some && unsigned_width(to) is Some && unsigned_width(from)->0
        < unsigned_width(to)->0
    ||| from == Type::F32 && to == Type::F64
    ||| from == Type::Str && to == Type::String
}

/// Tells whether a cast from `from` to `to` loses nothing.
pub open spec fn safe_cast(from: Type, to: Type) -> bool {
    from == to || widens(from, to)
}

/// The type that a smaller operand `small` and a larger operand `large` are
/// both brought to, for the pairs that the language promotes.
pub open spec fn promoted(small: Type, large: Type) -> Option<Type> {
    match (small, large) {
        (Type::I8, Type::I16) => Some(Type::I16),
        (Type::I8, Type::I32) => Some(Type::I32),
        (Type::I16, Type::I32) => Some(Type::I32),
        (Type::I32, Type::I64) => Some(Type::I64),
        (Type::F32, Type::F64) => Some(Type::F64),
        (Type::I32, Type::F32) => Some(Type::F32),
        (Type::I32, Type::F64) => Some(Type::F64),
        _ => None,
    }
}

/// The type that the operands of a binary operation are brought to: their
/// own where they agree, else the promotion of the pair in either order.
pub open spec fn common(left: Type, right: Type) -> Option<Type> {
    if left == right {
        Some(left)
    } else if promoted(left, right) is Some {
        promoted(left, right)
    } else {
        promoted(right, left)
    }
}

/// Type checking and conversion rules.
pub struct TypeSystem;

impl TypeSystem {
    /// Tells whether a cast from `from` to `to` loses nothing.
    pub fn is_safe_cast(from: &Type, to: &Type) -> (safe: bool)
        ensures
            safe == safe_cast(*from, *to),
    {
        if *from == *to {
            return true;
        }
        match (*from, *to) {
            (Type::I8, Type::I16 | Type::I32 | Type::I64 | Type::I128) => true,
            (Type::I16, Type::I32 | Type::I64 | Type::I128) => true,
            (Type::I32, Type::I64 | Type::I128) => true,
            (Type::I64, Type::I128) => true,
            (Type::U8, Type::U16 | Type::U32 | Type::U64 | Type::U128) => true,
            (Type::U16, Type::U32 | Type::U64 | Type::U128) => true,
            (Type::U32, Type::U64 | Type::U128) => true,
            (Type::U64, Type::U128) => true,
            (Type::F32, Type::F64) => true,
            (Type::Str, Type::String) => true,
            _ => false,
        }
    }

    /// The type that the operands of a binary operation are brought to, or
    /// `None` where the two types have none in common.
    pub fn common_type(left: &Type, right: &Type) -> (found: Option<Type>)
        ensures
            found == common(*left, *right),
    {
        if *left == *right {
            return Some(*left);
        }
        match (*left, *right) {
            (Type::I8, Type::I16) | (Type::I16, Type::I8) => Some(Type::I16),
            (Type::I8, Type::I32) | (Type::I32, Type::I8) => Some(Type::I32),
            (Type::I16, Type::I32) | (Type::I32, Type::I16) => Some(Type::I32),
            (Type::I32, Type::I64) | (Type::I64, Type::I32) => Some(Type::I64),
            (Type::F32, Type::F64) | (Type::F64, Type::F32) => Some(Type::F64),
            (Type::I32, Type::F32) | (Type::F32, Type::I32) => Some(Type::F32),
            (Type::I32, Type::F64) | (Type::F64, Type::I32) => Some(Type::F64),
            _ => None,
        }
    }
}

/// The common type does not depend on the order of the operands.
pub proof fn law_common_type_symmetric(left: Type, right: Type)
    ensures
        common(left, right) == common(right, left),
{
}

/// A safe cast followed by a safe cast is a safe cast.
pub proof fn law_safe_cast_transitive(a: Type, b: Type, c: Type)
    requires
        safe_cast(a, b),
        safe_cast(b, c),
    ensures
        safe_cast(a, c),
{
}

} // verus!
