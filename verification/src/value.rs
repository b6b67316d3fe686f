//! The values of the engine.

use vstd::prelude::*;
use vstd::string::*;
use crate::syntax::lexer::token::copy_bytes;

verus! {

/// A handle to an object: its index among the objects of a
/// [`crate::context::Context`].
#[derive(Clone, Copy, Debug, PartialEq, Eq, Structural)]
pub struct GcObject {
    pub index: usize,
}

/// A value. A number that is no 32-bit integer is a `Rational`, which holds
/// the bits of its double-precision form.
#[derive(Debug, PartialEq, Eq)]
pub enum Value {
    Undefined,
    Null,
    Boolean(bool),
    Integer(i32),
    Rational(u64),
    String(Vec<u8>),
    Object(GcObject),
}

/// The mathematical value of a [`Value`].
pub enum ValueV {
    Undefined,
    Null,
    Boolean(bool),
    Integer(i32),
    Rational(u64),
    String(Seq<u8>),
    Object(GcObject),
}

impl View for Value {
    type V = ValueV;

    open spec fn view(&self) -> ValueV {
        match self {
            Value::Undefined => ValueV::Undefined,
            Value::Null => ValueV::Null,
            Value::Boolean(b) => ValueV::Boolean(*b),
            Value::Integer(i) => ValueV::Integer(*i),
            Value::Rational(bits) => ValueV::Rational(*bits),
            Value::String(s) => ValueV::String(s@),
            Value::Object(o) => ValueV::Object(*o),
        }
    }
}

/// The bits of the double-precision number that is not a number.
pub const NAN_BITS: u64 = 0x7ff8_0000_0000_0000;

/// The bits of the double-precision positive infinity.
pub const INFINITY_BITS: u64 = 0x7ff0_0000_0000_0000;

/// The value of a length: the integer itself, or the largest integer value
/// where it does not fit.
pub open spec fn length_value(n: usize) -> ValueV {
    if n <= i32::MAX {
        ValueV::Integer(n as i32)
    } else {
        ValueV::Integer(i32::MAX)
    }
}

impl Value {
    /// The value of a length.
    pub fn from_length(n: usize) -> (v: Value)
        ensures
            v@ == length_value(n),
    {
        if n <= i32::MAX as usize {
            Value::Integer(n as i32)
        } else {
            Value::Integer(i32::MAX)
        }
    }

    /// The string value with the bytes of `s`.
    pub fn from_str(s: &str) -> (v: Value)
        ensures
            v@ == ValueV::String(s.spec_bytes()),
    {
        Value::String(vstd::slice::slice_to_vec(s.as_bytes()))
    }

    /// A copy of this value.
    pub fn duplicate(&self) -> (v: Value)
        ensures
            v@ == self@,
    {
        match self {
            Value::Undefined => Value::Undefined,
            Value::Null => Value::Null,
            Value::Boolean(b) => Value::Boolean(*b),
            Value::Integer(i) => Value::Integer(*i),
            Value::Rational(bits) => Value::Rational(*bits),
            Value::String(s) => Value::String(copy_bytes(s)),
            Value::Object(o) => Value::Object(*o),
        }
    }
}

} // verus!
