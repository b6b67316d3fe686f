//! Objects: what they are, their properties, their prototype.

use vstd::prelude::*;
use vstd::string::*;
use crate::property::{field, Attribute, Property, PropertyV};
use crate::syntax::lexer::bytes::bytes_eq;
use crate::value::{length_value, Value, ValueV};

verus! {

/// A function of the host, by its number in the host's table.
#[derive(Clone, Copy, Debug, PartialEq, Eq, Structural)]
pub struct NativeFunction {
    pub id: usize,
}

/// How a function object can be used.
#[derive(Clone, Copy, Debug, PartialEq, Eq, Structural)]
pub struct FunctionFlags {
    pub callable: bool,
    pub constructable: bool,
}

impl FunctionFlags {
    /// The flags of a function that can be called and not constructed.
    pub open spec fn spec_callable() -> FunctionFlags {
        FunctionFlags { callable: true, constructable: false }
    }

    #[verifier::when_used_as_spec(spec_callable)]
    pub fn callable() -> (f: FunctionFlags)
        ensures
            f == FunctionFlags::spec_callable(),
    {
        FunctionFlags { callable: true, constructable: false }
    }

    /// The flags with the given two properties.
    pub fn from_parameters(callable: bool, constructable: bool) -> (f: FunctionFlags)
        ensures
            f == (FunctionFlags { callable, constructable }),
    {
        FunctionFlags { callable, constructable }
    }
}

/// What a function object runs.
#[derive(Clone, Copy, Debug, PartialEq, Eq, Structural)]
pub enum Function {
    BuiltIn(NativeFunction, FunctionFlags),
}

/// What an object is beyond its properties.
#[derive(Clone, Copy, Debug, PartialEq, Eq, Structural)]
pub enum ObjectData {
    Ordinary,
    Function(Function),
    Global,
}

/// An object. A property that is inserted under a key that the object has
/// stands for the older one.
#[derive(Debug, PartialEq, Eq)]
pub struct Object {
    pub data: ObjectData,
    entries: Vec<(Vec<u8>, Property)>,
    prototype: Value,
}

/// The mathematical value of an [`Object`].
pub struct ObjectV {
    pub data: ObjectData,
    pub properties: Map<Seq<u8>, PropertyV>,
    pub prototype: ValueV,
}

/// The properties that a list of insertions leaves: a later insertion
/// under a key replaces an earlier one.
pub open spec fn inserted(entries: Seq<(Vec<u8>, Property)>) -> Map<Seq<u8>, PropertyV>
    decreases entries.len(),
{
    if entries.len() == 0 {
        Map::empty()
    } else {
        inserted(entries.drop_last()).insert(entries.last().0@, entries.last().1@)
    }
}

impl ObjectV {
    /// This object with the property `property` under `key`.
    pub open spec fn with_property(self, key: Seq<u8>, property: PropertyV) -> ObjectV {
        ObjectV { properties: self.properties.insert(key, property), ..self }
    }

    /// This object with the field `value` under `key`.
    pub open spec fn with_field(self, key: Seq<u8>, value: ValueV) -> ObjectV {
        self.with_property(key, field(value))
    }

    /// This object with the prototype `prototype`.
    pub open spec fn with_prototype(self, prototype: ValueV) -> ObjectV {
        ObjectV { prototype, ..self }
    }

    /// This object with the data `data`.
    pub open spec fn with_data(self, data: ObjectData) -> ObjectV {
        ObjectV { data, ..self }
    }
}

/// The ordinary object without properties and without prototype.
pub open spec fn plain_object() -> ObjectV {
    ObjectV { data: ObjectData::Ordinary, properties: Map::empty(), prototype: ValueV::Null }
}

/// The object of a function of the host: it runs `function`, can be called,
/// has `prototype` as its prototype, and the fields `length` and `name`.
pub open spec fn function_object(
    function: NativeFunction,
    name: Seq<u8>,
    length: usize,
    prototype: ValueV,
) -> ObjectV {
    ObjectV {
        data: ObjectData::Function(Function::BuiltIn(function, FunctionFlags::spec_callable())),
        properties: Map::empty(),
        prototype,
    }.with_field("length".spec_bytes(), length_value(length)).with_field(
        "name".spec_bytes(),
        ValueV::String(name),
    )
}

/// Insertions under other keys do not touch the property under `key`: it
/// is what the first `i` insertions left.
pub proof fn lemma_inserted_skip(entries: Seq<(Vec<u8>, Property)>, key: Seq<u8>, i: int)
    requires
        0 <= i <= entries.len(),
        forall|j: int| i <= j < entries.len() ==> (#[trigger] entries[j]).0@ != key,
    ensures
        inserted(entries).dom().contains(key) == inserted(entries.take(i)).dom().contains(key),
        inserted(entries).dom().contains(key) ==> inserted(entries)[key] == inserted(
            entries.take(i),
        )[key],
    decreases entries.len(),
{
    if i == entries.len() {
        assert(entries.take(i) =~= entries);
    } else {
        assert(entries[entries.len() - 1].0@ != key);
        assert(entries.drop_last().take(i) =~= entries.take(i));
        lemma_inserted_skip(entries.drop_last(), key, i);
    }
}

impl View for Object {
    type V = ObjectV;

    closed spec fn view(&self) -> ObjectV {
        ObjectV {
            data: self.data,
            properties: inserted(self.entries@),
            prototype: self.prototype@,
        }
    }
}

impl Object {
    /// An ordinary object without properties and without prototype.
    pub fn new() -> (o: Object)
        ensures
            o@ == plain_object(),
    {
        Object { data: ObjectData::Ordinary, entries: Vec::new(), prototype: Value::Null }
    }

    /// An object without properties that runs `function` and has the
    /// prototype `prototype`.
    pub fn function(function: Function, prototype: Value) -> (o: Object)
        ensures
            o@ == (ObjectV {
                data: ObjectData::Function(function),
                properties: Map::empty(),
                prototype: prototype@,
            }),
    {
        Object { data: ObjectData::Function(function), entries: Vec::new(), prototype }
    }

    /// Inserts a property under `key`.
    pub fn insert_property(&mut self, key: &str, property: Property)
        ensures
            final(self)@ == old(self)@.with_property(key.spec_bytes(), property@),
    {
        let ghost before = self.entries@;
        let k = vstd::slice::slice_to_vec(key.as_bytes());
        self.entries.push((k, property));
        assert(self.entries@.drop_last() =~= before);
    }

    /// Inserts a field, a property with every attribute, under `key`.
    pub fn insert_field(&mut self, key: &str, value: Value)
        ensures
            final(self)@ == old(self)@.with_field(key.spec_bytes(), value@),
    {
        self.insert_property(key, Property::data_descriptor(value, Attribute::all()));
    }

    /// The property under `key`, if the object has one.
    pub fn property(&self, key: &str) -> (r: Option<&Property>)
        ensures
            match r {
                Some(p) => self@.properties.dom().contains(key.spec_bytes()) && p@
                    == self@.properties[key.spec_bytes()],
                None => !self@.properties.dom().contains(key.spec_bytes()),
            },
    {
        let k = key.as_bytes();
        let mut i: usize = self.entries.len();
        while i > 0
            invariant
                i <= self.entries@.len(),
                k@ == key.spec_bytes(),
                forall|j: int| i <= j < self.entries@.len() ==> (#[trigger] self.entries@[j]).0@ != k@,
            decreases i,
        {
            i -= 1;
            if bytes_eq(self.entries[i].0.as_slice(), k) {
                proof {
                    lemma_inserted_skip(self.entries@, k@, i + 1);
                    assert(self.entries@.take(i + 1).drop_last() =~= self.entries@.take(i as int));
                }
                return Some(&self.entries[i].1);
            }
        }
        proof {
            lemma_inserted_skip(self.entries@, k@, 0);
            assert(self.entries@.take(0) =~= Seq::<(Vec<u8>, Property)>::empty());
        }
        None
    }

    /// The prototype.
    pub fn prototype(&self) -> (p: &Value)
        ensures
            p@ == self@.prototype,
    {
        &self.prototype
    }

    /// Sets the prototype.
    pub fn set_prototype_instance(&mut self, prototype: Value)
        ensures
            final(self)@ == old(self)@.with_prototype(prototype@),
    {
        self.prototype = prototype;
    }

    /// Sets what the object is.
    pub fn set_data(&mut self, data: ObjectData)
        ensures
            final(self)@ == old(self)@.with_data(data),
    {
        self.data = data;
    }
}

/// The views of a sequence of objects.
pub open spec fn object_views(objects: Seq<Object>) -> Seq<ObjectV> {
    Seq::new(objects.len(), |i: int| objects[i]@)
}

} // verus!
