//! The builders with which the engine makes its global objects, and the
//! registration of the globals themselves.

pub mod laws;

use vstd::prelude::*;
use vstd::string::*;
use crate::builtins::laws::{global_names, keeps, lemma_every_global_is_named, named_all};
use crate::context::{Context, StandardConstructor, StandardObjects};
use crate::object::{
    function_object, plain_object, Function, FunctionFlags, NativeFunction, Object, ObjectData,
    ObjectV,
};
use crate::property::{Attribute, Property, PropertyV};
use crate::value::{length_value, GcObject, Value, ValueV, INFINITY_BITS, NAN_BITS};

verus! {

/// The handle with the index `index`.
pub open spec fn handle(index: nat) -> GcObject {
    GcObject { index: index as usize }
}

/// `objects` after a method is added to the object `target`: a new function
/// object for `function`, with the given name and length, stands at the
/// end, and `target` has it as the field `name`.
pub open spec fn with_method(
    objects: Seq<ObjectV>,
    target: GcObject,
    function: NativeFunction,
    name: Seq<u8>,
    length: usize,
    standard: StandardObjects,
) -> Seq<ObjectV> {
    let added = objects.push(
        function_object(function, name, length, ValueV::Object(standard.function.prototype)),
    );
    added.update(
        target.index as int,
        added[target.index as int].with_field(name, ValueV::Object(handle(objects.len()))),
    )
}

/// `objects` after the object `target` is given a property.
pub open spec fn with_property(
    objects: Seq<ObjectV>,
    target: GcObject,
    key: Seq<u8>,
    value: ValueV,
    attribute: Attribute,
) -> Seq<ObjectV> {
    objects.update(
        target.index as int,
        objects[target.index as int].with_property(key, PropertyV { value, attribute }),
    )
}

/// Builds an ordinary object with methods and properties.
pub struct ObjectBuilder<'context> {
    pub context: &'context mut Context,
    pub object: GcObject,
}

impl<'context> ObjectBuilder<'context> {
    /// The invariant of the builder: its object is an object of its realm.
    pub open spec fn wf(&self) -> bool {
        &&& self.context.wf()
        &&& self.context.has(self.object)
    }

    /// Starts to build a new ordinary object in the realm `context`.
    #[verifier::spinoff_prover]
    pub fn new(context: &'context mut Context) -> (b: Self)
        requires
            old(context).wf(),
        ensures
            b.wf(),
            b.object.index == old(context).objects().len(),
            b.context.objects() == old(context).objects().push(
                plain_object().with_prototype(
                    ValueV::Object(old(context).standard().object.prototype),
                ),
            ),
            b.context.global() == old(context).global(),
            b.context.standard() == old(context).standard(),
            *final(context) == *final(b.context),
    {
        let object = context.construct_object();
        Self { context, object }
    }

    /// Gives the object the method `name`, which runs `function`.
    #[verifier::spinoff_prover]
    pub fn static_method(&mut self, function: NativeFunction, name: &str, length: usize) -> (r:
        &mut Self)
        requires
            old(self).wf(),
        ensures
            r.wf(),
            r.object == old(self).object,
            r.context.objects() == with_method(
                old(self).context.objects(),
                old(self).object,
                function,
                name.spec_bytes(),
                length,
                old(self).context.standard(),
            ),
            r.context.global() == old(self).context.global(),
            r.context.standard() == old(self).context.standard(),
            *final(r.context) == *final(old(self).context),
            *final(self) == *final(r),
    {
        let prototype = Value::Object(
            self.context.standard_objects().function_object().prototype(),
        );
        let mut function = Object::function(
            Function::BuiltIn(function, FunctionFlags::callable()),
            prototype,
        );
        function.insert_field("length", Value::from_length(length));
        function.insert_field("name", Value::from_str(name));
        let added = self.context.allocate(function);
        self.context.insert_field(self.object, name, Value::Object(added));
        self
    }

    /// Gives the object the property `key`.
    #[verifier::spinoff_prover]
    pub fn static_property(&mut self, key: &str, value: Value, attribute: Attribute) -> (r:
        &mut Self)
        requires
            old(self).wf(),
        ensures
            r.wf(),
            r.object == old(self).object,
            r.context.objects() == with_property(
                old(self).context.objects(),
                old(self).object,
                key.spec_bytes(),
                value@,
                attribute,
            ),
            r.context.global() == old(self).context.global(),
            r.context.standard() == old(self).context.standard(),
            *final(r.context) == *final(old(self).context),
            *final(self) == *final(r),
    {
        let property = Property::data_descriptor(value, attribute);
        self.context.insert_property(self.object, key, property);
        self
    }

    /// The object that was built, as a value.
    pub fn build(&mut self) -> (v: Value)
        ensures
            v@ == ValueV::Object(old(self).object),
            *final(self) == *old(self),
    {
        Value::Object(self.object)
    }
}

/// The name that a constructor has until it is given one.
pub open spec fn unnamed() -> Seq<u8> {
    "[Object]".spec_bytes()
}

/// `objects` after a constructor is finished. The constructor object runs
/// `function` with the given flags, has the read-only, hidden and permanent
/// properties `length` and `name`, the prototype of the standard object
/// `Function` as its prototype, and the object `prototype` as its field
/// `prototype`. The object `prototype` has the constructor object as its
/// field `constructor`, and the prototype of the standard object `Object`
/// as its prototype.
pub open spec fn with_constructor(
    objects: Seq<ObjectV>,
    constructor: GcObject,
    prototype: GcObject,
    function: NativeFunction,
    flags: FunctionFlags,
    length: usize,
    name: Seq<u8>,
    standard: StandardObjects,
) -> Seq<ObjectV> {
    let c = constructor.index as int;
    let p = prototype.index as int;
    let o1 = objects.update(
        c,
        objects[c].with_data(ObjectData::Function(Function::BuiltIn(function, flags))),
    );
    let o2 = with_property(
        o1,
        constructor,
        "length".spec_bytes(),
        length_value(length),
        Attribute::spec_none(),
    );
    let o3 = with_property(
        o2,
        constructor,
        "name".spec_bytes(),
        ValueV::String(name),
        Attribute::spec_none(),
    );
    let o4 = o3.update(c, o3[c].with_prototype(ValueV::Object(standard.function.prototype)));
    let o5 = o4.update(c, o4[c].with_field("prototype".spec_bytes(), ValueV::Object(prototype)));
    let o6 = o5.update(
        p,
        o5[p].with_field("constructor".spec_bytes(), ValueV::Object(constructor)),
    );
    o6.update(p, o6[p].with_prototype(ValueV::Object(standard.object.prototype)))
}

/// Builds a constructor with its prototype object.
pub struct ConstructorBuilder<'context> {
    pub context: &'context mut Context,
    pub constructor_function: NativeFunction,
    pub constructor_object: GcObject,
    pub prototype: GcObject,
    pub name: Vec<u8>,
    pub length: usize,
    pub callable: bool,
    pub constructable: bool,
}

impl<'context> ConstructorBuilder<'context> {
    /// The invariant of the builder: its two objects are two objects of its
    /// realm.
    pub open spec fn wf(&self) -> bool {
        &&& self.context.wf()
        &&& self.context.has(self.constructor_object)
        &&& self.context.has(self.prototype)
        &&& self.constructor_object != self.prototype
    }

    /// Whether `self` differs from `earlier` in nothing but the realm's
    /// objects, which are `objects`.
    pub open spec fn follows(&self, earlier: &Self, objects: Seq<ObjectV>) -> bool {
        &&& self.context.objects() == objects
        &&& self.context.global() == earlier.context.global()
        &&& self.context.standard() == earlier.context.standard()
        &&& self.constructor_function == earlier.constructor_function
        &&& self.constructor_object == earlier.constructor_object
        &&& self.prototype == earlier.prototype
        &&& self.name@ == earlier.name@
        &&& self.length == earlier.length
        &&& self.callable == earlier.callable
        &&& self.constructable == earlier.constructable
    }

    /// Starts to build a constructor that runs `constructor`, on two new
    /// objects: it is callable and constructable, has the length zero and
    /// no name of its own.
    #[verifier::spinoff_prover]
    pub fn new(context: &'context mut Context, constructor: NativeFunction) -> (b: Self)
        requires
            old(context).wf(),
        ensures
            b.wf(),
            b.context.objects() == old(context).objects().push(plain_object()).push(
                plain_object(),
            ),
            b.context.global() == old(context).global(),
            b.context.standard() == old(context).standard(),
            b.constructor_function == constructor,
            b.constructor_object.index == old(context).objects().len(),
            b.prototype.index == old(context).objects().len() + 1,
            b.name@ == unnamed(),
            b.length == 0,
            b.callable,
            b.constructable,
            *final(context) == *final(b.context),
    {
        let constructor_object = context.allocate(Object::new());
        let prototype = context.allocate(Object::new());
        Self {
            context,
            constructor_function: constructor,
            constructor_object,
            prototype,
            length: 0,
            name: vstd::slice::slice_to_vec("[Object]".as_bytes()),
            callable: true,
            constructable: true,
        }
    }

    /// Starts to build a constructor that runs `constructor`, on the two
    /// objects of the standard object `object`.
    #[verifier::spinoff_prover]
    pub fn with_standard_object(
        context: &'context mut Context,
        constructor: NativeFunction,
        object: StandardConstructor,
    ) -> (b: Self)
        requires
            old(context).wf(),
            old(context).has(object.constructor),
            old(context).has(object.prototype),
            object.constructor != object.prototype,
        ensures
            b.wf(),
            b.context.objects() == old(context).objects(),
            b.context.global() == old(context).global(),
            b.context.standard() == old(context).standard(),
            b.constructor_function == constructor,
            b.constructor_object == object.constructor,
            b.prototype == object.prototype,
            b.name@ == unnamed(),
            b.length == 0,
            b.callable,
            b.constructable,
            *final(context) == *final(b.context),
    {
        Self {
            context,
            constructor_function: constructor,
            constructor_object: object.constructor,
            prototype: object.prototype,
            length: 0,
            name: vstd::slice::slice_to_vec("[Object]".as_bytes()),
            callable: true,
            constructable: true,
        }
    }

    /// Gives the prototype object the method `name`, which runs `function`.
    #[verifier::spinoff_prover]
    pub fn method(&mut self, function: NativeFunction, name: &str, length: usize) -> (r: &mut Self)
        requires
            old(self).wf(),
        ensures
            r.wf(),
            r.follows(
                old(self),
                with_method(
                    old(self).context.objects(),
                    old(self).prototype,
                    function,
                    name.spec_bytes(),
                    length,
                    old(self).context.standard(),
                ),
            ),
            *final(r.context) == *final(old(self).context),
            *final(self) == *final(r),
    {
        let prototype = Value::Object(
            self.context.standard_objects().function_object().prototype(),
        );
        let mut function = Object::function(
            Function::BuiltIn(function, FunctionFlags::callable()),
            prototype,
        );
        function.insert_field("length", Value::from_length(length));
        function.insert_field("name", Value::from_str(name));
        let added = self.context.allocate(function);
        self.context.insert_field(self.prototype, name, Value::Object(added));
        self
    }

    /// Gives the constructor object the method `name`, which runs
    /// `function`.
    #[verifier::spinoff_prover]
    pub fn static_method(&mut self, function: NativeFunction, name: &str, length: usize) -> (r:
        &mut Self)
        requires
            old(self).wf(),
        ensures
            r.wf(),
            r.follows(
                old(self),
                with_method(
                    old(self).context.objects(),
                    old(self).constructor_object,
                    function,
                    name.spec_bytes(),
                    length,
                    old(self).context.standard(),
                ),
            ),
            *final(r.context) == *final(old(self).context),
            *final(self) == *final(r),
    {
        let prototype = Value::Object(
            self.context.standard_objects().function_object().prototype(),
        );
        let mut function = Object::function(
            Function::BuiltIn(function, FunctionFlags::callable()),
            prototype,
        );
        function.insert_field("length", Value::from_length(length));
        function.insert_field("name", Value::from_str(name));
        let added = self.context.allocate(function);
        self.context.insert_field(self.constructor_object, name, Value::Object(added));
        self
    }

    /// Gives the prototype object the property `key`.
    #[verifier::spinoff_prover]
    pub fn property(&mut self, key: &str, value: Value, attribute: Attribute) -> (r: &mut Self)
        requires
            old(self).wf(),
        ensures
            r.wf(),
            r.follows(
                old(self),
                with_property(
                    old(self).context.objects(),
                    old(self).prototype,
                    key.spec_bytes(),
                    value@,
                    attribute,
                ),
            ),
            *final(r.context) == *final(old(self).context),
            *final(self) == *final(r),
    {
        let property = Property::data_descriptor(value, attribute);
        self.context.insert_property(self.prototype, key, property);
        self
    }

    /// Gives the constructor object the property `key`.
    #[verifier::spinoff_prover]
    pub fn static_property(&mut self, key: &str, value: Value, attribute: Attribute) -> (r:
        &mut Self)
        requires
            old(self).wf(),
        ensures
            r.wf(),
            r.follows(
                old(self),
                with_property(
                    old(self).context.objects(),
                    old(self).constructor_object,
                    key.spec_bytes(),
                    value@,
                    attribute,
                ),
            ),
            *final(r.context) == *final(old(self).context),
            *final(self) == *final(r),
    {
        let property = Property::data_descriptor(value, attribute);
        self.context.insert_property(self.constructor_object, key, property);
        self
    }

    /// Sets the length that the constructor will have.
    pub fn length(&mut self, length: usize) -> (r: &mut Self)
        ensures
            r.length == length,
            r.context.objects() == old(self).context.objects(),
            r.context.global() == old(self).context.global(),
            r.context.standard() == old(self).context.standard(),
            r.constructor_function == old(self).constructor_function,
            r.constructor_object == old(self).constructor_object,
            r.prototype == old(self).prototype,
            r.name@ == old(self).name@,
            r.callable == old(self).callable,
            r.constructable == old(self).constructable,
            *final(r.context) == *final(old(self).context),
            *final(self) == *final(r),
    {
        self.length = length;
        self
    }

    /// Sets the name that the constructor will have.
    pub fn name(&mut self, name: &str) -> (r: &mut Self)
        ensures
            r.name@ == name.spec_bytes(),
            r.context.objects() == old(self).context.objects(),
            r.context.global() == old(self).context.global(),
            r.context.standard() == old(self).context.standard(),
            r.constructor_function == old(self).constructor_function,
            r.constructor_object == old(self).constructor_object,
            r.prototype == old(self).prototype,
            r.length == old(self).length,
            r.callable == old(self).callable,
            r.constructable == old(self).constructable,
            *final(r.context) == *final(old(self).context),
            *final(self) == *final(r),
    {
        self.name = vstd::slice::slice_to_vec(name.as_bytes());
        self
    }

    /// Sets whether the constructor can be called.
    pub fn callable(&mut self, callable: bool) -> (r: &mut Self)
        ensures
            r.callable == callable,
            r.context.objects() == old(self).context.objects(),
            r.context.global() == old(self).context.global(),
            r.context.standard() == old(self).context.standard(),
            r.constructor_function == old(self).constructor_function,
            r.constructor_object == old(self).constructor_object,
            r.prototype == old(self).prototype,
            r.name@ == old(self).name@,
            r.length == old(self).length,
            r.constructable == old(self).constructable,
            *final(r.context) == *final(old(self).context),
            *final(self) == *final(r),
    {
        self.callable = callable;
        self
    }

    /// Sets whether the constructor can be used with `new`.
    pub fn constructable(&mut self, constructable: bool) -> (r: &mut Self)
        ensures
            r.constructable == constructable,
            r.context.objects() == old(self).context.objects(),
            r.context.global() == old(self).context.global(),
            r.context.standard() == old(self).context.standard(),
            r.constructor_function == old(self).constructor_function,
            r.constructor_object == old(self).constructor_object,
            r.prototype == old(self).prototype,
            r.name@ == old(self).name@,
            r.length == old(self).length,
            r.callable == old(self).callable,
            *final(r.context) == *final(old(self).context),
            *final(self) == *final(r),
    {
        self.constructable = constructable;
        self
    }

    /// Finishes the constructor and returns its object as a value. The
    /// builder is left without a name.
    #[verifier::spinoff_prover]
    pub fn build(&mut self) -> (v: Value)
        requires
            old(self).wf(),
        ensures
            final(self).wf(),
            v@ == ValueV::Object(old(self).constructor_object),
            final(self).context.objects() == with_constructor(
                old(self).context.objects(),
                old(self).constructor_object,
                old(self).prototype,
                old(self).constructor_function,
                FunctionFlags { callable: old(self).callable, constructable: old(self).constructable },
                old(self).length,
                old(self).name@,
                old(self).context.standard(),
            ),
            final(self).context.global() == old(self).context.global(),
            final(self).context.standard() == old(self).context.standard(),
            final(self).constructor_function == old(self).constructor_function,
            final(self).constructor_object == old(self).constructor_object,
            final(self).prototype == old(self).prototype,
            final(self).name@ == Seq::<u8>::empty(),
            final(self).length == old(self).length,
            final(self).callable == old(self).callable,
            final(self).constructable == old(self).constructable,
            *final(final(self).context) == *final(old(self).context),
    {
        let function = Function::BuiltIn(
            self.constructor_function,
            FunctionFlags::from_parameters(self.callable, self.constructable),
        );
        let length = Property::data_descriptor(Value::from_length(self.length), Attribute::none());
        let mut name: Vec<u8> = Vec::new();
        core::mem::swap(&mut self.name, &mut name);
        let name = Property::data_descriptor(Value::String(name), Attribute::none());
        let standard = self.context.standard_objects();
        self.context.set_data(self.constructor_object, ObjectData::Function(function));
        self.context.insert_property(self.constructor_object, "length", length);
        self.context.insert_property(self.constructor_object, "name", name);
        self.context.set_prototype_instance(
            self.constructor_object,
            Value::Object(standard.function_object().prototype()),
        );
        self.context.insert_field(
            self.constructor_object,
            "prototype",
            Value::Object(self.prototype),
        );
        self.context.insert_field(
            self.prototype,
            "constructor",
            Value::Object(self.constructor_object),
        );
        self.context.set_prototype_instance(
            self.prototype,
            Value::Object(standard.object_object().prototype()),
        );
        Value::Object(self.constructor_object)
    }
}

/// A global of the engine: a name, the attributes of its property on the
/// global object, and how its value is made.
pub trait BuiltIn {
    /// The binding name of the property.
    spec fn binding() -> Seq<u8>;

    /// The attributes of the property: every attribute, unless the global
    /// says otherwise.
    open spec fn attributes() -> Attribute {
        Attribute::spec_all()
    }

    /// The objects of the realm once the value is made.
    spec fn initialized(
        objects: Seq<ObjectV>,
        global: GcObject,
        standard: StandardObjects,
    ) -> Seq<ObjectV>;

    /// The value.
    spec fn value(objects: Seq<ObjectV>, global: GcObject, standard: StandardObjects) -> ValueV;

    /// The binding name of the property.
    fn name() -> (s: &'static str)
        ensures
            s.spec_bytes() == Self::binding(),
    ;

    /// The attributes of the property. A global that does not write its own
    /// has every attribute.
    fn attribute() -> (a: Attribute)
        ensures
            Self::attributes() == Attribute::spec_all() ==> a == Attribute::spec_all(),
    {
        Attribute::all()
    }

    /// Makes the value in the realm `context`, and returns it with the
    /// name and the attributes.
    fn init(context: &mut Context) -> (r: (&'static str, Value, Attribute))
        requires
            old(context).wf(),
        ensures
            final(context).wf(),
            final(context).global() == old(context).global(),
            final(context).standard() == old(context).standard(),
            final(context).objects() == Self::initialized(
                old(context).objects(),
                old(context).global(),
                old(context).standard(),
            ),
            r.0.spec_bytes() == Self::binding(),
            r.1@ == Self::value(
                old(context).objects(),
                old(context).global(),
                old(context).standard(),
            ),
            r.2 == Self::attributes(),
    ;
}

/// The attributes of a global that can be written and deleted and is not
/// listed.
pub open spec fn spec_hidden() -> Attribute {
    Attribute { writable: true, enumerable: false, configurable: true }
}

/// The attributes of a global that can be written and deleted and is not
/// listed.
#[verifier::when_used_as_spec(spec_hidden)]
pub fn hidden() -> (a: Attribute)
    ensures
        a == spec_hidden(),
{
    Attribute { writable: true, enumerable: false, configurable: true }
}

/// The flags of a function that can be called and constructed.
pub open spec fn full_flags() -> FunctionFlags {
    FunctionFlags { callable: true, constructable: true }
}

/// `objects` after a new ordinary object is made, whose prototype is the
/// prototype of the standard object `Object`.
pub open spec fn with_object(objects: Seq<ObjectV>, standard: StandardObjects) -> Seq<ObjectV> {
    objects.push(plain_object().with_prototype(ValueV::Object(standard.object.prototype)))
}

/// `objects` after a constructor is made on two new objects: the
/// constructor object stands at the end but one, its prototype object at
/// the end.
pub open spec fn with_new_constructor(
    objects: Seq<ObjectV>,
    function: NativeFunction,
    flags: FunctionFlags,
    length: usize,
    name: Seq<u8>,
    standard: StandardObjects,
) -> Seq<ObjectV> {
    with_constructor(
        objects.push(plain_object()).push(plain_object()),
        handle(objects.len()),
        handle(objects.len() + 1),
        function,
        flags,
        length,
        name,
        standard,
    )
}

/// Makes a new ordinary object without members of its own, as the value of
/// a global.
#[verifier::spinoff_prover]
pub fn make_object(context: &mut Context) -> (v: Value)
    requires
        old(context).wf(),
    ensures
        final(context).wf(),
        final(context).global() == old(context).global(),
        final(context).standard() == old(context).standard(),
        final(context).objects() == with_object(old(context).objects(), old(context).standard()),
        v@ == ValueV::Object(handle(old(context).objects().len())),
{
    let mut builder = ObjectBuilder::new(context);
    builder.build()
}

/// Makes a constructor on two new objects, as the value of a global.
#[verifier::spinoff_prover]
pub fn make_constructor(
    context: &mut Context,
    function: NativeFunction,
    name: &str,
    length: usize,
    callable: bool,
    constructable: bool,
) -> (v: Value)
    requires
        old(context).wf(),
    ensures
        final(context).wf(),
        final(context).global() == old(context).global(),
        final(context).standard() == old(context).standard(),
        final(context).objects() == with_new_constructor(
            old(context).objects(),
            function,
            FunctionFlags { callable, constructable },
            length,
            name.spec_bytes(),
            old(context).standard(),
        ),
        v@ == ValueV::Object(handle(old(context).objects().len())),
{
    let mut builder = ConstructorBuilder::new(context, function);
    builder.name(name).length(length).callable(callable).constructable(constructable);
    builder.build()
}

/// Makes a constructor on the two objects of a standard object, as the
/// value of a global.
#[verifier::spinoff_prover]
pub fn make_standard_constructor(
    context: &mut Context,
    function: NativeFunction,
    object: StandardConstructor,
    name: &str,
    length: usize,
) -> (v: Value)
    requires
        old(context).wf(),
        old(context).has(object.constructor),
        old(context).has(object.prototype),
        object.constructor != object.prototype,
    ensures
        final(context).wf(),
        final(context).global() == old(context).global(),
        final(context).standard() == old(context).standard(),
        final(context).objects() == with_constructor(
            old(context).objects(),
            object.constructor,
            object.prototype,
            function,
            full_flags(),
            length,
            name.spec_bytes(),
            old(context).standard(),
        ),
        v@ == ValueV::Object(object.constructor),
{
    let mut builder = ConstructorBuilder::with_standard_object(context, function, object);
    builder.name(name).length(length);
    builder.build()
}

/// The global `undefined`: read-only, hidden and permanent.
#[derive(Debug, Clone, Copy)]
pub struct Undefined;

impl BuiltIn for Undefined {
    open spec fn binding() -> Seq<u8> {
        "undefined".spec_bytes()
    }

    open spec fn attributes() -> Attribute {
        Attribute::spec_none()
    }

    open spec fn initialized(
        objects: Seq<ObjectV>,
        global: GcObject,
        standard: StandardObjects,
    ) -> Seq<ObjectV> {
        objects
    }

    open spec fn value(objects: Seq<ObjectV>, global: GcObject, standard: StandardObjects) -> ValueV {
        ValueV::Undefined
    }

    fn name() -> (s: &'static str) {
        "undefined"
    }

    fn attribute() -> (a: Attribute)
        ensures
            a == Self::attributes(),
    {
        Attribute::none()
    }

    fn init(context: &mut Context) -> (r: (&'static str, Value, Attribute)) {
        (Self::name(), Value::Undefined, Self::attribute())
    }
}

/// The global `Infinity`: read-only, hidden and permanent.
#[derive(Debug, Clone, Copy)]
pub struct Infinity;

impl BuiltIn for Infinity {
    open spec fn binding() -> Seq<u8> {
        "Infinity".spec_bytes()
    }

    open spec fn attributes() -> Attribute {
        Attribute::spec_none()
    }

    open spec fn initialized(
        objects: Seq<ObjectV>,
        global: GcObject,
        standard: StandardObjects,
    ) -> Seq<ObjectV> {
        objects
    }

    open spec fn value(objects: Seq<ObjectV>, global: GcObject, standard: StandardObjects) -> ValueV {
        ValueV::Rational(INFINITY_BITS)
    }

    fn name() -> (s: &'static str) {
        "Infinity"
    }

    fn attribute() -> (a: Attribute)
        ensures
            a == Self::attributes(),
    {
        Attribute::none()
    }

    fn init(context: &mut Context) -> (r: (&'static str, Value, Attribute)) {
        (Self::name(), Value::Rational(INFINITY_BITS), Self::attribute())
    }
}

/// The global `NaN`: read-only, hidden and permanent.
#[derive(Debug, Clone, Copy)]
pub struct NaN;

impl BuiltIn for NaN {
    open spec fn binding() -> Seq<u8> {
        "NaN".spec_bytes()
    }

    open spec fn attributes() -> Attribute {
        Attribute::spec_none()
    }

    open spec fn initialized(
        objects: Seq<ObjectV>,
        global: GcObject,
        standard: StandardObjects,
    ) -> Seq<ObjectV> {
        objects
    }

    open spec fn value(objects: Seq<ObjectV>, global: GcObject, standard: StandardObjects) -> ValueV {
        ValueV::Rational(NAN_BITS)
    }

    fn name() -> (s: &'static str) {
        "NaN"
    }

    fn attribute() -> (a: Attribute)
        ensures
            a == Self::attributes(),
    {
        Attribute::none()
    }

    fn init(context: &mut Context) -> (r: (&'static str, Value, Attribute)) {
        (Self::name(), Value::Rational(NAN_BITS), Self::attribute())
    }
}

/// The global `globalThis`: the global object itself.
#[derive(Debug, Clone, Copy)]
pub struct GlobalThis;

impl BuiltIn for GlobalThis {
    open spec fn binding() -> Seq<u8> {
        "globalThis".spec_bytes()
    }

    open spec fn attributes() -> Attribute {
        spec_hidden()
    }

    open spec fn initialized(
        objects: Seq<ObjectV>,
        global: GcObject,
        standard: StandardObjects,
    ) -> Seq<ObjectV> {
        objects
    }

    open spec fn value(objects: Seq<ObjectV>, global: GcObject, standard: StandardObjects) -> ValueV {
        ValueV::Object(global)
    }

    fn name() -> (s: &'static str) {
        "globalThis"
    }

    fn attribute() -> (a: Attribute)
        ensures
            a == Self::attributes(),
    {
        hidden()
    }

    fn init(context: &mut Context) -> (r: (&'static str, Value, Attribute)) {
        (Self::name(), context.global_object(), Self::attribute())
    }
}

/// The number of the host function that the constructor `Function` runs.
pub const FUNCTION_CONSTRUCTOR: usize = 0;

/// The number of the host function that the constructor `Object` runs.
pub const OBJECT_CONSTRUCTOR: usize = 1;

/// The number of the host function that the constructor `Array` runs.
pub const ARRAY_CONSTRUCTOR: usize = 2;

/// The number of the host function that the constructor `BigInt` runs.
pub const BIGINT_CONSTRUCTOR: usize = 3;

/// The number of the host function that the constructor `Boolean` runs.
pub const BOOLEAN_CONSTRUCTOR: usize = 4;

/// The number of the host function that the constructor `Date` runs.
pub const DATE_CONSTRUCTOR: usize = 5;

/// The number of the host function that the constructor `Map` runs.
pub const MAP_CONSTRUCTOR: usize = 6;

/// The number of the host function that the constructor `Number` runs.
pub const NUMBER_CONSTRUCTOR: usize = 7;

/// The number of the host function that the constructor `String` runs.
pub const STRING_CONSTRUCTOR: usize = 8;

/// The number of the host function that the constructor `RegExp` runs.
pub const REGEXP_CONSTRUCTOR: usize = 9;

/// The number of the host function that the constructor `Symbol` runs.
pub const SYMBOL_CONSTRUCTOR: usize = 10;

/// The number of the host function that the constructor `Error` runs.
pub const ERROR_CONSTRUCTOR: usize = 11;

/// The number of the host function that the constructor `RangeError` runs.
pub const RANGE_ERROR_CONSTRUCTOR: usize = 12;

/// The number of the host function that the constructor `ReferenceError` runs.
pub const REFERENCE_ERROR_CONSTRUCTOR: usize = 13;

/// The number of the host function that the constructor `TypeError` runs.
pub const TYPE_ERROR_CONSTRUCTOR: usize = 14;

/// The number of the host function that the constructor `SyntaxError` runs.
pub const SYNTAX_ERROR_CONSTRUCTOR: usize = 15;

/// The global `Function`: the constructor of functions, built on the
/// standard object `Function`.
#[derive(Debug, Clone, Copy)]
pub struct BuiltInFunctionObject;

impl BuiltIn for BuiltInFunctionObject {
    open spec fn binding() -> Seq<u8> {
        "Function".spec_bytes()
    }

    open spec fn attributes() -> Attribute {
        spec_hidden()
    }

    open spec fn initialized(
        objects: Seq<ObjectV>,
        global: GcObject,
        standard: StandardObjects,
    ) -> Seq<ObjectV> {
        with_constructor(
            objects,
            standard.function.constructor,
            standard.function.prototype,
            NativeFunction { id: FUNCTION_CONSTRUCTOR },
            full_flags(),
            1,
            "Function".spec_bytes(),
            standard,
        )
    }

    open spec fn value(objects: Seq<ObjectV>, global: GcObject, standard: StandardObjects) -> ValueV {
        ValueV::Object(standard.function.constructor)
    }

    fn name() -> (s: &'static str) {
        "Function"
    }

    fn attribute() -> (a: Attribute)
        ensures
            a == Self::attributes(),
    {
        hidden()
    }

    fn init(context: &mut Context) -> (r: (&'static str, Value, Attribute)) {
        let standard = context.standard_objects().function_object();
        let value = make_standard_constructor(
            context,
            NativeFunction { id: FUNCTION_CONSTRUCTOR },
            standard,
            Self::name(),
            1,
        );
        (Self::name(), value, Self::attribute())
    }
}

/// The global `Object`: the constructor of objects, built on the standard
/// object `Object`.
#[derive(Debug, Clone, Copy)]
pub struct BuiltInObjectObject;

impl BuiltIn for BuiltInObjectObject {
    open spec fn binding() -> Seq<u8> {
        "Object".spec_bytes()
    }

    open spec fn attributes() -> Attribute {
        spec_hidden()
    }

    open spec fn initialized(
        objects: Seq<ObjectV>,
        global: GcObject,
        standard: StandardObjects,
    ) -> Seq<ObjectV> {
        with_constructor(
            objects,
            standard.object.constructor,
            standard.object.prototype,
            NativeFunction { id: OBJECT_CONSTRUCTOR },
            full_flags(),
            1,
            "Object".spec_bytes(),
            standard,
        )
    }

    open spec fn value(objects: Seq<ObjectV>, global: GcObject, standard: StandardObjects) -> ValueV {
        ValueV::Object(standard.object.constructor)
    }

    fn name() -> (s: &'static str) {
        "Object"
    }

    fn attribute() -> (a: Attribute)
        ensures
            a == Self::attributes(),
    {
        hidden()
    }

    fn init(context: &mut Context) -> (r: (&'static str, Value, Attribute)) {
        let standard = context.standard_objects().object_object();
        let value = make_standard_constructor(
            context,
            NativeFunction { id: OBJECT_CONSTRUCTOR },
            standard,
            Self::name(),
            1,
        );
        (Self::name(), value, Self::attribute())
    }
}

/// The global `Math`: an ordinary object.
#[derive(Debug, Clone, Copy)]
pub struct Math;

impl BuiltIn for Math {
    open spec fn binding() -> Seq<u8> {
        "Math".spec_bytes()
    }

    open spec fn attributes() -> Attribute {
        spec_hidden()
    }

    open spec fn initialized(
        objects: Seq<ObjectV>,
        global: GcObject,
        standard: StandardObjects,
    ) -> Seq<ObjectV> {
        with_object(objects, standard)
    }

    open spec fn value(objects: Seq<ObjectV>, global: GcObject, standard: StandardObjects) -> ValueV {
        ValueV::Object(handle(objects.len()))
    }

    fn name() -> (s: &'static str) {
        "Math"
    }

    fn attribute() -> (a: Attribute)
        ensures
            a == Self::attributes(),
    {
        hidden()
    }

    fn init(context: &mut Context) -> (r: (&'static str, Value, Attribute)) {
        let value = make_object(context);
        (Self::name(), value, Self::attribute())
    }
}

/// The global `JSON`: an ordinary object.
#[derive(Debug, Clone, Copy)]
pub struct Json;

impl BuiltIn for Json {
    open spec fn binding() -> Seq<u8> {
        "JSON".spec_bytes()
    }

    open spec fn attributes() -> Attribute {
        spec_hidden()
    }

    open spec fn initialized(
        objects: Seq<ObjectV>,
        global: GcObject,
        standard: StandardObjects,
    ) -> Seq<ObjectV> {
        with_object(objects, standard)
    }

    open spec fn value(objects: Seq<ObjectV>, global: GcObject, standard: StandardObjects) -> ValueV {
        ValueV::Object(handle(objects.len()))
    }

    fn name() -> (s: &'static str) {
        "JSON"
    }

    fn attribute() -> (a: Attribute)
        ensures
            a == Self::attributes(),
    {
        hidden()
    }

    fn init(context: &mut Context) -> (r: (&'static str, Value, Attribute)) {
        let value = make_object(context);
        (Self::name(), value, Self::attribute())
    }
}

/// The global `console`: an ordinary object.
#[derive(Debug, Clone, Copy)]
pub struct Console;

impl BuiltIn for Console {
    open spec fn binding() -> Seq<u8> {
        "console".spec_bytes()
    }

    open spec fn attributes() -> Attribute {
        spec_hidden()
    }

    open spec fn initialized(
        objects: Seq<ObjectV>,
        global: GcObject,
        standard: StandardObjects,
    ) -> Seq<ObjectV> {
        with_object(objects, standard)
    }

    open spec fn value(objects: Seq<ObjectV>, global: GcObject, standard: StandardObjects) -> ValueV {
        ValueV::Object(handle(objects.len()))
    }

    fn name() -> (s: &'static str) {
        "console"
    }

    fn attribute() -> (a: Attribute)
        ensures
            a == Self::attributes(),
    {
        hidden()
    }

    fn init(context: &mut Context) -> (r: (&'static str, Value, Attribute)) {
        let value = make_object(context);
        (Self::name(), value, Self::attribute())
    }
}

/// The global `Array`: a constructor on two objects of its own.
#[derive(Debug, Clone, Copy)]
pub struct Array;

impl BuiltIn for Array {
    open spec fn binding() -> Seq<u8> {
        "Array".spec_bytes()
    }

    open spec fn attributes() -> Attribute {
        spec_hidden()
    }

    open spec fn initialized(
        objects: Seq<ObjectV>,
        global: GcObject,
        standard: StandardObjects,
    ) -> Seq<ObjectV> {
        with_new_constructor(
            objects,
            NativeFunction { id: ARRAY_CONSTRUCTOR },
            FunctionFlags { callable: true, constructable: true },
            1,
            "Array".spec_bytes(),
            standard,
        )
    }

    open spec fn value(objects: Seq<ObjectV>, global: GcObject, standard: StandardObjects) -> ValueV {
        ValueV::Object(handle(objects.len()))
    }

    fn name() -> (s: &'static str) {
        "Array"
    }

    fn attribute() -> (a: Attribute)
        ensures
            a == Self::attributes(),
    {
        hidden()
    }

    fn init(context: &mut Context) -> (r: (&'static str, Value, Attribute)) {
        let value = make_constructor(
            context,
            NativeFunction { id: ARRAY_CONSTRUCTOR },
            Self::name(),
            1,
            true,
            true,
        );
        (Self::name(), value, Self::attribute())
    }
}

/// The global `BigInt`: a constructor on two objects of its own. It can be called, and not used with `new`.
#[derive(Debug, Clone, Copy)]
pub struct BigInt;

impl BuiltIn for BigInt {
    open spec fn binding() -> Seq<u8> {
        "BigInt".spec_bytes()
    }

    open spec fn attributes() -> Attribute {
        spec_hidden()
    }

    open spec fn initialized(
        objects: Seq<ObjectV>,
        global: GcObject,
        standard: StandardObjects,
    ) -> Seq<ObjectV> {
        with_new_constructor(
            objects,
            NativeFunction { id: BIGINT_CONSTRUCTOR },
            FunctionFlags { callable: true, constructable: false },
            1,
            "BigInt".spec_bytes(),
            standard,
        )
    }

    open spec fn value(objects: Seq<ObjectV>, global: GcObject, standard: StandardObjects) -> ValueV {
        ValueV::Object(handle(objects.len()))
    }

    fn name() -> (s: &'static str) {
        "BigInt"
    }

    fn attribute() -> (a: Attribute)
        ensures
            a == Self::attributes(),
    {
        hidden()
    }

    fn init(context: &mut Context) -> (r: (&'static str, Value, Attribute)) {
        let value = make_constructor(
            context,
            NativeFunction { id: BIGINT_CONSTRUCTOR },
            Self::name(),
            1,
            true,
            false,
        );
        (Self::name(), value, Self::attribute())
    }
}

/// The global `Boolean`: a constructor on two objects of its own.
#[derive(Debug, Clone, Copy)]
pub struct Boolean;

impl BuiltIn for Boolean {
    open spec fn binding() -> Seq<u8> {
        "Boolean".spec_bytes()
    }

    open spec fn attributes() -> Attribute {
        spec_hidden()
    }

    open spec fn initialized(
        objects: Seq<ObjectV>,
        global: GcObject,
        standard: StandardObjects,
    ) -> Seq<ObjectV> {
        with_new_constructor(
            objects,
            NativeFunction { id: BOOLEAN_CONSTRUCTOR },
            FunctionFlags { callable: true, constructable: true },
            1,
            "Boolean".spec_bytes(),
            standard,
        )
    }

    open spec fn value(objects: Seq<ObjectV>, global: GcObject, standard: StandardObjects) -> ValueV {
        ValueV::Object(handle(objects.len()))
    }

    fn name() -> (s: &'static str) {
        "Boolean"
    }

    fn attribute() -> (a: Attribute)
        ensures
            a == Self::attributes(),
    {
        hidden()
    }

    fn init(context: &mut Context) -> (r: (&'static str, Value, Attribute)) {
        let value = make_constructor(
            context,
            NativeFunction { id: BOOLEAN_CONSTRUCTOR },
            Self::name(),
            1,
            true,
            true,
        );
        (Self::name(), value, Self::attribute())
    }
}

/// The global `Date`: a constructor on two objects of its own.
#[derive(Debug, Clone, Copy)]
pub struct Date;

impl BuiltIn for Date {
    open spec fn binding() -> Seq<u8> {
        "Date".spec_bytes()
    }

    open spec fn attributes() -> Attribute {
        spec_hidden()
    }

    open spec fn initialized(
        objects: Seq<ObjectV>,
        global: GcObject,
        standard: StandardObjects,
    ) -> Seq<ObjectV> {
        with_new_constructor(
            objects,
            NativeFunction { id: DATE_CONSTRUCTOR },
            FunctionFlags { callable: true, constructable: true },
            7,
            "Date".spec_bytes(),
            standard,
        )
    }

    open spec fn value(objects: Seq<ObjectV>, global: GcObject, standard: StandardObjects) -> ValueV {
        ValueV::Object(handle(objects.len()))
    }

    fn name() -> (s: &'static str) {
        "Date"
    }

    fn attribute() -> (a: Attribute)
        ensures
            a == Self::attributes(),
    {
        hidden()
    }

    fn init(context: &mut Context) -> (r: (&'static str, Value, Attribute)) {
        let value = make_constructor(
            context,
            NativeFunction { id: DATE_CONSTRUCTOR },
            Self::name(),
            7,
            true,
            true,
        );
        (Self::name(), value, Self::attribute())
    }
}

/// The global `Map`: a constructor on two objects of its own.
#[derive(Debug, Clone, Copy)]
pub struct BuiltInMap;

impl BuiltIn for BuiltInMap {
    open spec fn binding() -> Seq<u8> {
        "Map".spec_bytes()
    }

    open spec fn attributes() -> Attribute {
        spec_hidden()
    }

    open spec fn initialized(
        objects: Seq<ObjectV>,
        global: GcObject,
        standard: StandardObjects,
    ) -> Seq<ObjectV> {
        with_new_constructor(
            objects,
            NativeFunction { id: MAP_CONSTRUCTOR },
            FunctionFlags { callable: true, constructable: true },
            0,
            "Map".spec_bytes(),
            standard,
        )
    }

    open spec fn value(objects: Seq<ObjectV>, global: GcObject, standard: StandardObjects) -> ValueV {
        ValueV::Object(handle(objects.len()))
    }

    fn name() -> (s: &'static str) {
        "Map"
    }

    fn attribute() -> (a: Attribute)
        ensures
            a == Self::attributes(),
    {
        hidden()
    }

    fn init(context: &mut Context) -> (r: (&'static str, Value, Attribute)) {
        let value = make_constructor(
            context,
            NativeFunction { id: MAP_CONSTRUCTOR },
            Self::name(),
            0,
            true,
            true,
        );
        (Self::name(), value, Self::attribute())
    }
}

/// The global `Number`: a constructor on two objects of its own.
#[derive(Debug, Clone, Copy)]
pub struct Number;

impl BuiltIn for Number {
    open spec fn binding() -> Seq<u8> {
        "Number".spec_bytes()
    }

    open spec fn attributes() -> Attribute {
        spec_hidden()
    }

    open spec fn initialized(
        objects: Seq<ObjectV>,
        global: GcObject,
        standard: StandardObjects,
    ) -> Seq<ObjectV> {
        with_new_constructor(
            objects,
            NativeFunction { id: NUMBER_CONSTRUCTOR },
            FunctionFlags { callable: true, constructable: true },
            1,
            "Number".spec_bytes(),
            standard,
        )
    }

    open spec fn value(objects: Seq<ObjectV>, global: GcObject, standard: StandardObjects) -> ValueV {
        ValueV::Object(handle(objects.len()))
    }

    fn name() -> (s: &'static str) {
        "Number"
    }

    fn attribute() -> (a: Attribute)
        ensures
            a == Self::attributes(),
    {
        hidden()
    }

    fn init(context: &mut Context) -> (r: (&'static str, Value, Attribute)) {
        let value = make_constructor(
            context,
            NativeFunction { id: NUMBER_CONSTRUCTOR },
            Self::name(),
            1,
            true,
            true,
        );
        (Self::name(), value, Self::attribute())
    }
}

/// The global `String`: a constructor on two objects of its own.
#[derive(Debug, Clone, Copy)]
pub struct String;

impl BuiltIn for String {
    open spec fn binding() -> Seq<u8> {
        "String".spec_bytes()
    }

    open spec fn attributes() -> Attribute {
        spec_hidden()
    }

    open spec fn initialized(
        objects: Seq<ObjectV>,
        global: GcObject,
        standard: StandardObjects,
    ) -> Seq<ObjectV> {
        with_new_constructor(
            objects,
            NativeFunction { id: STRING_CONSTRUCTOR },
            FunctionFlags { callable: true, constructable: true },
            1,
            "String".spec_bytes(),
            standard,
        )
    }

    open spec fn value(objects: Seq<ObjectV>, global: GcObject, standard: StandardObjects) -> ValueV {
        ValueV::Object(handle(objects.len()))
    }

    fn name() -> (s: &'static str) {
        "String"
    }

    fn attribute() -> (a: Attribute)
        ensures
            a == Self::attributes(),
    {
        hidden()
    }

    fn init(context: &mut Context) -> (r: (&'static str, Value, Attribute)) {
        let value = make_constructor(
            context,
            NativeFunction { id: STRING_CONSTRUCTOR },
            Self::name(),
            1,
            true,
            true,
        );
        (Self::name(), value, Self::attribute())
    }
}

/// The global `RegExp`: a constructor on two objects of its own.
#[derive(Debug, Clone, Copy)]
pub struct RegExp;

impl BuiltIn for RegExp {
    open spec fn binding() -> Seq<u8> {
        "RegExp".spec_bytes()
    }

    open spec fn attributes() -> Attribute {
        spec_hidden()
    }

    open spec fn initialized(
        objects: Seq<ObjectV>,
        global: GcObject,
        standard: StandardObjects,
    ) -> Seq<ObjectV> {
        with_new_constructor(
            objects,
            NativeFunction { id: REGEXP_CONSTRUCTOR },
            FunctionFlags { callable: true, constructable: true },
            2,
            "RegExp".spec_bytes(),
            standard,
        )
    }

    open spec fn value(objects: Seq<ObjectV>, global: GcObject, standard: StandardObjects) -> ValueV {
        ValueV::Object(handle(objects.len()))
    }

    fn name() -> (s: &'static str) {
        "RegExp"
    }

    fn attribute() -> (a: Attribute)
        ensures
            a == Self::attributes(),
    {
        hidden()
    }

    fn init(context: &mut Context) -> (r: (&'static str, Value, Attribute)) {
        let value = make_constructor(
            context,
            NativeFunction { id: REGEXP_CONSTRUCTOR },
            Self::name(),
            2,
            true,
            true,
        );
        (Self::name(), value, Self::attribute())
    }
}

/// The global `Symbol`: a constructor on two objects of its own. It can be called, and not used with `new`.
#[derive(Debug, Clone, Copy)]
pub struct Symbol;

impl BuiltIn for Symbol {
    open spec fn binding() -> Seq<u8> {
        "Symbol".spec_bytes()
    }

    open spec fn attributes() -> Attribute {
        spec_hidden()
    }

    open spec fn initialized(
        objects: Seq<ObjectV>,
        global: GcObject,
        standard: StandardObjects,
    ) -> Seq<ObjectV> {
        with_new_constructor(
            objects,
            NativeFunction { id: SYMBOL_CONSTRUCTOR },
            FunctionFlags { callable: true, constructable: false },
            0,
            "Symbol".spec_bytes(),
            standard,
        )
    }

    open spec fn value(objects: Seq<ObjectV>, global: GcObject, standard: StandardObjects) -> ValueV {
        ValueV::Object(handle(objects.len()))
    }

    fn name() -> (s: &'static str) {
        "Symbol"
    }

    fn attribute() -> (a: Attribute)
        ensures
            a == Self::attributes(),
    {
        hidden()
    }

    fn init(context: &mut Context) -> (r: (&'static str, Value, Attribute)) {
        let value = make_constructor(
            context,
            NativeFunction { id: SYMBOL_CONSTRUCTOR },
            Self::name(),
            0,
            true,
            false,
        );
        (Self::name(), value, Self::attribute())
    }
}

/// The global `Error`: a constructor on two objects of its own.
#[derive(Debug, Clone, Copy)]
pub struct Error;

impl BuiltIn for Error {
    open spec fn binding() -> Seq<u8> {
        "Error".spec_bytes()
    }

    open spec fn attributes() -> Attribute {
        spec_hidden()
    }

    open spec fn initialized(
        objects: Seq<ObjectV>,
        global: GcObject,
        standard: StandardObjects,
    ) -> Seq<ObjectV> {
        with_new_constructor(
            objects,
            NativeFunction { id: ERROR_CONSTRUCTOR },
            FunctionFlags { callable: true, constructable: true },
            1,
            "Error".spec_bytes(),
            standard,
        )
    }

    open spec fn value(objects: Seq<ObjectV>, global: GcObject, standard: StandardObjects) -> ValueV {
        ValueV::Object(handle(objects.len()))
    }

    fn name() -> (s: &'static str) {
        "Error"
    }

    fn attribute() -> (a: Attribute)
        ensures
            a == Self::attributes(),
    {
        hidden()
    }

    fn init(context: &mut Context) -> (r: (&'static str, Value, Attribute)) {
        let value = make_constructor(
            context,
            NativeFunction { id: ERROR_CONSTRUCTOR },
            Self::name(),
            1,
            true,
            true,
        );
        (Self::name(), value, Self::attribute())
    }
}

/// The global `RangeError`: a constructor on two objects of its own.
#[derive(Debug, Clone, Copy)]
pub struct RangeError;

impl BuiltIn for RangeError {
    open spec fn binding() -> Seq<u8> {
        "RangeError".spec_bytes()
    }

    open spec fn attributes() -> Attribute {
        spec_hidden()
    }

    open spec fn initialized(
        objects: Seq<ObjectV>,
        global: GcObject,
        standard: StandardObjects,
    ) -> Seq<ObjectV> {
        with_new_constructor(
            objects,
            NativeFunction { id: RANGE_ERROR_CONSTRUCTOR },
            FunctionFlags { callable: true, constructable: true },
            1,
            "RangeError".spec_bytes(),
            standard,
        )
    }

    open spec fn value(objects: Seq<ObjectV>, global: GcObject, standard: StandardObjects) -> ValueV {
        ValueV::Object(handle(objects.len()))
    }

    fn name() -> (s: &'static str) {
        "RangeError"
    }

    fn attribute() -> (a: Attribute)
        ensures
            a == Self::attributes(),
    {
        hidden()
    }

    fn init(context: &mut Context) -> (r: (&'static str, Value, Attribute)) {
        let value = make_constructor(
            context,
            NativeFunction { id: RANGE_ERROR_CONSTRUCTOR },
            Self::name(),
            1,
            true,
            true,
        );
        (Self::name(), value, Self::attribute())
    }
}

/// The global `ReferenceError`: a constructor on two objects of its own.
#[derive(Debug, Clone, Copy)]
pub struct ReferenceError;

impl BuiltIn for ReferenceError {
    open spec fn binding() -> Seq<u8> {
        "ReferenceError".spec_bytes()
    }

    open spec fn attributes() -> Attribute {
        spec_hidden()
    }

    open spec fn initialized(
        objects: Seq<ObjectV>,
        global: GcObject,
        standard: StandardObjects,
    ) -> Seq<ObjectV> {
        with_new_constructor(
            objects,
            NativeFunction { id: REFERENCE_ERROR_CONSTRUCTOR },
            FunctionFlags { callable: true, constructable: true },
            1,
            "ReferenceError".spec_bytes(),
            standard,
        )
    }

    open spec fn value(objects: Seq<ObjectV>, global: GcObject, standard: StandardObjects) -> ValueV {
        ValueV::Object(handle(objects.len()))
    }

    fn name() -> (s: &'static str) {
        "ReferenceError"
    }

    fn attribute() -> (a: Attribute)
        ensures
            a == Self::attributes(),
    {
        hidden()
    }

    fn init(context: &mut Context) -> (r: (&'static str, Value, Attribute)) {
        let value = make_constructor(
            context,
            NativeFunction { id: REFERENCE_ERROR_CONSTRUCTOR },
            Self::name(),
            1,
            true,
            true,
        );
        (Self::name(), value, Self::attribute())
    }
}

/// The global `TypeError`: a constructor on two objects of its own.
#[derive(Debug, Clone, Copy)]
pub struct TypeError;

impl BuiltIn for TypeError {
    open spec fn binding() -> Seq<u8> {
        "TypeError".spec_bytes()
    }

    open spec fn attributes() -> Attribute {
        spec_hidden()
    }

    open spec fn initialized(
        objects: Seq<ObjectV>,
        global: GcObject,
        standard: StandardObjects,
    ) -> Seq<ObjectV> {
        with_new_constructor(
            objects,
            NativeFunction { id: TYPE_ERROR_CONSTRUCTOR },
            FunctionFlags { callable: true, constructable: true },
            1,
            "TypeError".spec_bytes(),
            standard,
        )
    }

    open spec fn value(objects: Seq<ObjectV>, global: GcObject, standard: StandardObjects) -> ValueV {
        ValueV::Object(handle(objects.len()))
    }

    fn name() -> (s: &'static str) {
        "TypeError"
    }

    fn attribute() -> (a: Attribute)
        ensures
            a == Self::attributes(),
    {
        hidden()
    }

    fn init(context: &mut Context) -> (r: (&'static str, Value, Attribute)) {
        let value = make_constructor(
            context,
            NativeFunction { id: TYPE_ERROR_CONSTRUCTOR },
            Self::name(),
            1,
            true,
            true,
        );
        (Self::name(), value, Self::attribute())
    }
}

/// The global `SyntaxError`: a constructor on two objects of its own.
#[derive(Debug, Clone, Copy)]
pub struct SyntaxError;

impl BuiltIn for SyntaxError {
    open spec fn binding() -> Seq<u8> {
        "SyntaxError".spec_bytes()
    }

    open spec fn attributes() -> Attribute {
        spec_hidden()
    }

    open spec fn initialized(
        objects: Seq<ObjectV>,
        global: GcObject,
        standard: StandardObjects,
    ) -> Seq<ObjectV> {
        with_new_constructor(
            objects,
            NativeFunction { id: SYNTAX_ERROR_CONSTRUCTOR },
            FunctionFlags { callable: true, constructable: true },
            1,
            "SyntaxError".spec_bytes(),
            standard,
        )
    }

    open spec fn value(objects: Seq<ObjectV>, global: GcObject, standard: StandardObjects) -> ValueV {
        ValueV::Object(handle(objects.len()))
    }

    fn name() -> (s: &'static str) {
        "SyntaxError"
    }

    fn attribute() -> (a: Attribute)
        ensures
            a == Self::attributes(),
    {
        hidden()
    }

    fn init(context: &mut Context) -> (r: (&'static str, Value, Attribute)) {
        let value = make_constructor(
            context,
            NativeFunction { id: SYNTAX_ERROR_CONSTRUCTOR },
            Self::name(),
            1,
            true,
            true,
        );
        (Self::name(), value, Self::attribute())
    }
}

/// `objects` after the global `B` is registered: its value is made, and the
/// global object has it as the property of its name.
pub open spec fn registered<B: BuiltIn>(
    objects: Seq<ObjectV>,
    global: GcObject,
    standard: StandardObjects,
) -> Seq<ObjectV> {
    with_property(
        B::initialized(objects, global, standard),
        global,
        B::binding(),
        B::value(objects, global, standard),
        B::attributes(),
    )
}

/// `objects` after every global is registered, each once and each before
/// the next is made, in this order:
/// `undefined`, `Infinity`, `NaN`, `globalThis`, `Function`, `Object`,
/// `Math`, `JSON`, `console`, `Array`, `BigInt`, `Boolean`, `Date`, `Map`,
/// `Number`, `String`, `RegExp`, `Symbol`, `Error`, `RangeError`,
/// `ReferenceError`, `TypeError`, `SyntaxError`.
pub open spec fn with_globals(
    objects: Seq<ObjectV>,
    global: GcObject,
    standard: StandardObjects,
) -> Seq<ObjectV> {
    let o1 = registered::<Undefined>(objects, global, standard);
    let o2 = registered::<Infinity>(o1, global, standard);
    let o3 = registered::<NaN>(o2, global, standard);
    let o4 = registered::<GlobalThis>(o3, global, standard);
    let o5 = registered::<BuiltInFunctionObject>(o4, global, standard);
    let o6 = registered::<BuiltInObjectObject>(o5, global, standard);
    let o7 = registered::<Math>(o6, global, standard);
    let o8 = registered::<Json>(o7, global, standard);
    let o9 = registered::<Console>(o8, global, standard);
    let o10 = registered::<Array>(o9, global, standard);
    let o11 = registered::<BigInt>(o10, global, standard);
    let o12 = registered::<Boolean>(o11, global, standard);
    let o13 = registered::<Date>(o12, global, standard);
    let o14 = registered::<BuiltInMap>(o13, global, standard);
    let o15 = registered::<Number>(o14, global, standard);
    let o16 = registered::<String>(o15, global, standard);
    let o17 = registered::<RegExp>(o16, global, standard);
    let o18 = registered::<Symbol>(o17, global, standard);
    let o19 = registered::<Error>(o18, global, standard);
    let o20 = registered::<RangeError>(o19, global, standard);
    let o21 = registered::<ReferenceError>(o20, global, standard);
    let o22 = registered::<TypeError>(o21, global, standard);
    registered::<SyntaxError>(o22, global, standard)
}

/// Registers the global `B` in the realm `context`: makes its value, and
/// inserts it on the global object under its name.
#[verifier::spinoff_prover]
pub fn register<B: BuiltIn>(context: &mut Context)
    requires
        old(context).wf(),
    ensures
        final(context).wf(),
        final(context).global() == old(context).global(),
        final(context).standard() == old(context).standard(),
        final(context).objects() == registered::<B>(
            old(context).objects(),
            old(context).global(),
            old(context).standard(),
        ),
{
    let (name, value, attribute) = B::init(context);
    let property = Property::data_descriptor(value, attribute);
    let global = match context.global_object() {
        Value::Object(global) => global,
        _ => GcObject { index: 0 },
    };
    context.insert_property(global, name, property);
}

/// Initializes the builtin objects and functions: registers every global of
/// the engine on the global object of the realm `context`, in the order of
/// [`with_globals`]. The global object then has a property under the name of
/// every global, no object of the realm has lost a property, and the realm
/// has thirty-one objects more.
#[verifier::spinoff_prover]
pub fn init(context: &mut Context)
    requires
        old(context).wf(),
    ensures
        final(context).wf(),
        final(context).global() == old(context).global(),
        final(context).standard() == old(context).standard(),
        final(context).objects() == with_globals(
            old(context).objects(),
            old(context).global(),
            old(context).standard(),
        ),
        final(context).objects().len() == old(context).objects().len() + 31,
        keeps(old(context).objects(), final(context).objects()),
        named_all(final(context).objects(), old(context).global(), global_names()),
{
    proof {
        lemma_every_global_is_named(context.objects(), context.global(), context.standard());
    }
    register::<Undefined>(context);
    register::<Infinity>(context);
    register::<NaN>(context);
    register::<GlobalThis>(context);
    register::<BuiltInFunctionObject>(context);
    register::<BuiltInObjectObject>(context);
    register::<Math>(context);
    register::<Json>(context);
    register::<Console>(context);
    register::<Array>(context);
    register::<BigInt>(context);
    register::<Boolean>(context);
    register::<Date>(context);
    register::<BuiltInMap>(context);
    register::<Number>(context);
    register::<String>(context);
    register::<RegExp>(context);
    register::<Symbol>(context);
    register::<Error>(context);
    register::<RangeError>(context);
    register::<ReferenceError>(context);
    register::<TypeError>(context);
    register::<SyntaxError>(context);
}

} // verus!
