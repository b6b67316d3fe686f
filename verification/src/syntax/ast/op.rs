//! Operators of the syntax tree.

use vstd::prelude::*;

verus! {

/// Arithmetic operators.
#[derive(Clone, Copy, Debug, PartialEq, Eq, Structural)]
pub enum NumOp {
    Add,
    Sub,
    Div,
    Mul,
    Exp,
    Mod,
}

/// Bitwise operators.
#[derive(Clone, Copy, Debug, PartialEq, Eq, Structural)]
pub enum BitOp {
    And,
    Or,
    Xor,
    Shl,
    Shr,
    UShr,
}

/// Comparison operators.
#[derive(Clone, Copy, Debug, PartialEq, Eq, Structural)]
pub enum CompOp {
    Equal,
    NotEqual,
    StrictEqual,
    StrictNotEqual,
    GreaterThan,
    GreaterThanOrEqual,
    LessThan,
    LessThanOrEqual,
    In,
    InstanceOf,
}

/// Short-circuit logical operators.
#[derive(Clone, Copy, Debug, PartialEq, Eq, Structural)]
pub enum LogOp {
    And,
    Or,
}

/// Compound assignment operators.
#[derive(Clone, Copy, Debug, PartialEq, Eq, Structural)]
pub enum AssignOp {
    Add,
    Sub,
    Mul,
    Div,
    Mod,
    Exp,
    And,
    Or,
    Xor,
    Shl,
    Shr,
    UShr,
}

/// Any operator with two operands.
#[derive(Clone, Copy, Debug, PartialEq, Eq, Structural)]
pub enum BinOp {
    Num(NumOp),
    Bit(BitOp),
    Comp(CompOp),
    Log(LogOp),
    Assign(AssignOp),
    Comma,
}

/// Operators with one operand.
#[derive(Clone, Copy, Debug, PartialEq, Eq, Structural)]
pub enum UnaryOp {
    IncrementPost,
    IncrementPre,
    DecrementPost,
    DecrementPre,
    Minus,
    Plus,
    Not,
    Tilde,
    TypeOf,
    Delete,
    Void,
}

/// How a function is declared: plain, generator, asynchronous, or both.
#[derive(Clone, Copy, Debug, PartialEq, Eq, Structural)]
pub enum FunctionKind {
    Normal,
    Generator,
    Async,
    AsyncGenerator,
}

impl FunctionKind {
    /// Whether `yield` is an operator inside a body of this kind.
    pub open spec fn spec_is_generator(self) -> bool {
        self == FunctionKind::Generator || self == FunctionKind::AsyncGenerator
    }

    /// Whether `await` is an operator inside a body of this kind.
    pub open spec fn spec_is_async(self) -> bool {
        self == FunctionKind::Async || self == FunctionKind::AsyncGenerator
    }

    #[verifier::when_used_as_spec(spec_is_generator)]
    pub fn is_generator(self) -> (r: bool)
        ensures
            r == self.spec_is_generator(),
    {
        match self {
            FunctionKind::Generator | FunctionKind::AsyncGenerator => true,
            _ => false,
        }
    }

    #[verifier::when_used_as_spec(spec_is_async)]
    pub fn is_async(self) -> (r: bool)
        ensures
            r == self.spec_is_async(),
    {
        match self {
            FunctionKind::Async | FunctionKind::AsyncGenerator => true,
            _ => false,
        }
    }

    /// The kind of a function that is or is not asynchronous, and is or is
    /// not a generator.
    pub open spec fn spec_from_flags(is_async: bool, is_generator: bool) -> FunctionKind {
        if is_async {
            if is_generator {
                FunctionKind::AsyncGenerator
            } else {
                FunctionKind::Async
            }
        } else if is_generator {
            FunctionKind::Generator
        } else {
            FunctionKind::Normal
        }
    }

    #[verifier::when_used_as_spec(spec_from_flags)]
    pub fn from_flags(is_async: bool, is_generator: bool) -> (k: FunctionKind)
        ensures
            k == FunctionKind::spec_from_flags(is_async, is_generator),
            k.spec_is_async() == is_async,
            k.spec_is_generator() == is_generator,
    {
        if is_async {
            if is_generator {
                FunctionKind::AsyncGenerator
            } else {
                FunctionKind::Async
            }
        } else if is_generator {
            FunctionKind::Generator
        } else {
            FunctionKind::Normal
        }
    }
}

} // verus!
