//! Properties of objects and their attributes.

use vstd::prelude::*;
use crate::value::{Value, ValueV};

verus! {

/// The attributes of a property: whether its value can be written, whether
/// it shows up when the properties are listed, and whether it can be
/// deleted or changed in kind.
#[derive(Clone, Copy, Debug, PartialEq, Eq, Structural)]
pub struct Attribute {
    pub writable: bool,
    pub enumerable: bool,
    pub configurable: bool,
}

impl Attribute {
    /// Every attribute.
    pub open spec fn spec_all() -> Attribute {
        Attribute { writable: true, enumerable: true, configurable: true }
    }

    #[verifier::when_used_as_spec(spec_all)]
    pub fn all() -> (a: Attribute)
        ensures
            a == Attribute::spec_all(),
    {
        Attribute { writable: true, enumerable: true, configurable: true }
    }

    /// No attribute: read-only, not enumerable, permanent.
    pub open spec fn spec_none() -> Attribute {
        Attribute { writable: false, enumerable: false, configurable: false }
    }

    #[verifier::when_used_as_spec(spec_none)]
    pub fn none() -> (a: Attribute)
        ensures
            a == Attribute::spec_none(),
    {
        Attribute { writable: false, enumerable: false, configurable: false }
    }

    /// The attributes of `self` and of `other` together.
    pub fn union(self, other: Attribute) -> (a: Attribute)
        ensures
            a.writable == (self.writable || other.writable),
            a.enumerable == (self.enumerable || other.enumerable),
            a.configurable == (self.configurable || other.configurable),
    {
        Attribute {
            writable: self.writable || other.writable,
            enumerable: self.enumerable || other.enumerable,
            configurable: self.configurable || other.configurable,
        }
    }
}

/// A data property: a value with its attributes.
#[derive(Debug, PartialEq, Eq)]
pub struct Property {
    pub value: Value,
    pub attribute: Attribute,
}

/// The mathematical value of a [`Property`].
pub struct PropertyV {
    pub value: ValueV,
    pub attribute: Attribute,
}

impl View for Property {
    type V = PropertyV;

    open spec fn view(&self) -> PropertyV {
        PropertyV { value: self.value@, attribute: self.attribute }
    }
}

impl Property {
    /// The data property with the given value and attributes.
    pub fn data_descriptor(value: Value, attribute: Attribute) -> (p: Property)
        ensures
            p@ == (PropertyV { value: value@, attribute }),
    {
        Property { value, attribute }
    }
}

/// The property that a field, set without attributes of its own, is.
pub open spec fn field(value: ValueV) -> PropertyV {
    PropertyV { value, attribute: Attribute::spec_all() }
}

} // verus!
