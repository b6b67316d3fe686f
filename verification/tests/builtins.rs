//! Tests of the builders and of the registration of the globals.

use boa::builtins::{
    hidden, init, make_constructor, make_object, make_standard_constructor, register, Array,
    BigInt, Boolean, BuiltIn, BuiltInFunctionObject, BuiltInMap, BuiltInObjectObject, Console,
    ConstructorBuilder, Date, Error, GlobalThis, Infinity, Json, Math, NaN, Number, ObjectBuilder,
    RangeError, ReferenceError, RegExp, Symbol, SyntaxError, TypeError, Undefined,
    ARRAY_CONSTRUCTOR, BIGINT_CONSTRUCTOR, BOOLEAN_CONSTRUCTOR, SYNTAX_ERROR_CONSTRUCTOR,
};
use boa::context::Context;
use boa::object::{Function, FunctionFlags, NativeFunction, Object, ObjectData};
use boa::property::{Attribute, Property};
use boa::value::{GcObject, Value, INFINITY_BITS, NAN_BITS};

fn property<'a>(context: &'a Context, object: GcObject, key: &str) -> &'a Property {
    context
        .object(object)
        .expect("no such object")
        .property(key)
        .expect("no such property")
}

fn string(s: &str) -> Value {
    Value::String(s.as_bytes().to_vec())
}

fn handle_of(v: &Value) -> GcObject {
    match v {
        Value::Object(h) => *h,
        other => panic!("not an object: {:?}", other),
    }
}

#[test]
fn a_new_realm_has_its_five_objects() {
    let context = Context::new();
    assert_eq!(context.len(), 5);
    assert_eq!(context.global_object(), Value::Object(GcObject { index: 0 }));
    assert_eq!(context.object(GcObject { index: 0 }).unwrap().data, ObjectData::Global);
    assert!(context.object(GcObject { index: 5 }).is_none());
    let standard = context.standard_objects();
    assert_eq!(standard.object_object().prototype(), GcObject { index: 2 });
    assert_eq!(standard.function_object().prototype(), GcObject { index: 4 });
}

#[test]
fn a_later_property_replaces_an_earlier_one() {
    let mut object = Object::new();
    assert!(object.property("a").is_none());
    object.insert_field("a", Value::Integer(1));
    object.insert_field("b", Value::Integer(2));
    object.insert_property("a", Property::data_descriptor(Value::Integer(3), Attribute::none()));
    assert_eq!(
        object.property("a"),
        Some(&Property { value: Value::Integer(3), attribute: Attribute::none() })
    );
    assert_eq!(
        object.property("b"),
        Some(&Property { value: Value::Integer(2), attribute: Attribute::all() })
    );
    assert_eq!(object.prototype(), &Value::Null);
}

#[test]
fn lengths_become_integer_values() {
    assert_eq!(Value::from_length(0), Value::Integer(0));
    assert_eq!(Value::from_length(i32::MAX as usize), Value::Integer(i32::MAX));
    assert_eq!(Value::from_length(i32::MAX as usize + 1), Value::Integer(i32::MAX));
}

#[test]
fn the_object_builder_adds_methods_and_properties() {
    let mut context = Context::new();
    let value = {
        let mut builder = ObjectBuilder::new(&mut context);
        builder
            .static_method(NativeFunction { id: 7 }, "abs", 1)
            .static_property("PI", Value::Integer(3), Attribute::none());
        builder.build()
    };
    let object = handle_of(&value);
    assert_eq!(object, GcObject { index: 5 });
    assert_eq!(context.len(), 7);
    assert_eq!(
        context.object(object).unwrap().prototype(),
        &Value::Object(GcObject { index: 2 })
    );

    let abs = property(&context, object, "abs");
    assert_eq!(abs.attribute, Attribute::all());
    let function = handle_of(&abs.value);
    assert_eq!(function, GcObject { index: 6 });
    let f = context.object(function).unwrap();
    assert_eq!(
        f.data,
        ObjectData::Function(Function::BuiltIn(
            NativeFunction { id: 7 },
            FunctionFlags { callable: true, constructable: false }
        ))
    );
    assert_eq!(f.prototype(), &Value::Object(GcObject { index: 4 }));
    assert_eq!(property(&context, function, "length").value, Value::Integer(1));
    assert_eq!(property(&context, function, "name").value, string("abs"));

    let pi = property(&context, object, "PI");
    assert_eq!(pi, &Property { value: Value::Integer(3), attribute: Attribute::none() });
}

#[test]
fn the_constructor_builder_links_constructor_and_prototype() {
    let mut context = Context::new();
    let value = {
        let mut builder = ConstructorBuilder::new(&mut context, NativeFunction { id: 9 });
        builder
            .name("Thing")
            .length(2)
            .callable(false)
            .constructable(true)
            .method(NativeFunction { id: 10 }, "run", 0)
            .static_method(NativeFunction { id: 11 }, "of", 1)
            .property("kind", Value::Integer(1), Attribute::all())
            .static_property("MAX", Value::Integer(5), Attribute::none());
        builder.build()
    };
    let constructor = handle_of(&value);
    let prototype = GcObject { index: 6 };
    assert_eq!(constructor, GcObject { index: 5 });
    assert_eq!(context.len(), 9);

    let c = context.object(constructor).unwrap();
    assert_eq!(
        c.data,
        ObjectData::Function(Function::BuiltIn(
            NativeFunction { id: 9 },
            FunctionFlags { callable: false, constructable: true }
        ))
    );
    assert_eq!(c.prototype(), &Value::Object(GcObject { index: 4 }));
    assert_eq!(
        property(&context, constructor, "length"),
        &Property { value: Value::Integer(2), attribute: Attribute::none() }
    );
    assert_eq!(
        property(&context, constructor, "name"),
        &Property { value: string("Thing"), attribute: Attribute::none() }
    );
    assert_eq!(
        property(&context, constructor, "prototype"),
        &Property { value: Value::Object(prototype), attribute: Attribute::all() }
    );
    assert_eq!(property(&context, constructor, "MAX").value, Value::Integer(5));
    assert_eq!(handle_of(&property(&context, constructor, "of").value), GcObject { index: 8 });

    let p = context.object(prototype).unwrap();
    assert_eq!(p.prototype(), &Value::Object(GcObject { index: 2 }));
    assert_eq!(
        property(&context, prototype, "constructor"),
        &Property { value: Value::Object(constructor), attribute: Attribute::all() }
    );
    assert_eq!(property(&context, prototype, "kind").value, Value::Integer(1));
    assert_eq!(handle_of(&property(&context, prototype, "run").value), GcObject { index: 7 });
}

#[test]
fn a_constructor_without_a_name_is_called_object() {
    let mut context = Context::new();
    let value = {
        let mut builder = ConstructorBuilder::new(&mut context, NativeFunction { id: 1 });
        assert_eq!(builder.name, b"[Object]".to_vec());
        assert_eq!(builder.length, 0);
        assert!(builder.callable && builder.constructable);
        let v = builder.build();
        assert!(builder.name.is_empty());
        v
    };
    let constructor = handle_of(&value);
    assert_eq!(property(&context, constructor, "name").value, string("[Object]"));
    assert_eq!(property(&context, constructor, "length").value, Value::Integer(0));
}

#[test]
fn a_global_has_its_name_and_attributes() {
    assert_eq!(Undefined::name(), "undefined");
    assert_eq!(Undefined::attribute(), Attribute::none());
    assert_eq!(GlobalThis::name(), "globalThis");
    assert_eq!(
        GlobalThis::attribute(),
        Attribute { writable: true, enumerable: false, configurable: true }
    );
    let mut context = Context::new();
    let (name, value, attribute) = Undefined::init(&mut context);
    assert_eq!((name, value, attribute), ("undefined", Value::Undefined, Attribute::none()));
    assert_eq!(context.len(), 5);
}

#[test]
fn each_global_has_its_name_and_attributes() {
    let none = Attribute::none();
    let hid = Attribute { writable: true, enumerable: false, configurable: true };
    assert_eq!(hidden(), hid);
    let all: Vec<(&str, Attribute)> = vec![
        (Undefined::name(), Undefined::attribute()),
        (Infinity::name(), Infinity::attribute()),
        (NaN::name(), NaN::attribute()),
        (GlobalThis::name(), GlobalThis::attribute()),
        (BuiltInFunctionObject::name(), BuiltInFunctionObject::attribute()),
        (BuiltInObjectObject::name(), BuiltInObjectObject::attribute()),
        (Math::name(), Math::attribute()),
        (Json::name(), Json::attribute()),
        (Console::name(), Console::attribute()),
        (Array::name(), Array::attribute()),
        (BigInt::name(), BigInt::attribute()),
        (Boolean::name(), Boolean::attribute()),
        (Date::name(), Date::attribute()),
        (BuiltInMap::name(), BuiltInMap::attribute()),
        (Number::name(), Number::attribute()),
        (boa::builtins::String::name(), boa::builtins::String::attribute()),
        (RegExp::name(), RegExp::attribute()),
        (Symbol::name(), Symbol::attribute()),
        (Error::name(), Error::attribute()),
        (RangeError::name(), RangeError::attribute()),
        (ReferenceError::name(), ReferenceError::attribute()),
        (TypeError::name(), TypeError::attribute()),
        (SyntaxError::name(), SyntaxError::attribute()),
    ];
    assert_eq!(
        all,
        vec![
            ("undefined", none),
            ("Infinity", none),
            ("NaN", none),
            ("globalThis", hid),
            ("Function", hid),
            ("Object", hid),
            ("Math", hid),
            ("JSON", hid),
            ("console", hid),
            ("Array", hid),
            ("BigInt", hid),
            ("Boolean", hid),
            ("Date", hid),
            ("Map", hid),
            ("Number", hid),
            ("String", hid),
            ("RegExp", hid),
            ("Symbol", hid),
            ("Error", hid),
            ("RangeError", hid),
            ("ReferenceError", hid),
            ("TypeError", hid),
            ("SyntaxError", hid),
        ]
    );
}

#[test]
fn the_makers_make_what_they_are_asked_for() {
    let mut context = Context::new();
    let object = handle_of(&make_object(&mut context));
    assert_eq!(object, GcObject { index: 5 });
    assert_eq!(context.object(object).unwrap().data, ObjectData::Ordinary);
    assert_eq!(
        context.object(object).unwrap().prototype(),
        &Value::Object(GcObject { index: 2 })
    );

    let made = make_constructor(&mut context, NativeFunction { id: 40 }, "Made", 3, true, false);
    let constructor = handle_of(&made);
    assert_eq!(constructor, GcObject { index: 6 });
    assert_eq!(context.len(), 8);
    assert_eq!(
        context.object(constructor).unwrap().data,
        ObjectData::Function(Function::BuiltIn(
            NativeFunction { id: 40 },
            FunctionFlags { callable: true, constructable: false }
        ))
    );
    assert_eq!(property(&context, constructor, "name").value, string("Made"));
    assert_eq!(property(&context, constructor, "length").value, Value::Integer(3));
    assert_eq!(
        property(&context, constructor, "prototype").value,
        Value::Object(GcObject { index: 7 })
    );

    let standard = context.standard_objects().function_object();
    let value =
        make_standard_constructor(&mut context, NativeFunction { id: 41 }, standard, "F", 1);
    assert_eq!(value, Value::Object(GcObject { index: 3 }));
    assert_eq!(context.len(), 8);
    assert_eq!(property(&context, GcObject { index: 3 }, "name").value, string("F"));
    assert_eq!(
        property(&context, GcObject { index: 4 }, "constructor").value,
        Value::Object(GcObject { index: 3 })
    );
}

#[test]
fn init_registers_every_global_in_its_order() {
    let mut context = Context::new();
    init(&mut context);
    let global = GcObject { index: 0 };
    let hid = Attribute { writable: true, enumerable: false, configurable: true };
    // Three ordinary objects and fourteen constructors on two objects each
    // are made behind the five objects of a new realm.
    assert_eq!(context.len(), 5 + 3 + 2 * 14);
    assert!(context.is_wf());
    assert_eq!(
        property(&context, global, "undefined"),
        &Property { value: Value::Undefined, attribute: Attribute::none() }
    );
    assert_eq!(
        property(&context, global, "Infinity"),
        &Property { value: Value::Rational(INFINITY_BITS), attribute: Attribute::none() }
    );
    assert_eq!(f64::from_bits(INFINITY_BITS), f64::INFINITY);
    assert_eq!(
        property(&context, global, "NaN"),
        &Property { value: Value::Rational(NAN_BITS), attribute: Attribute::none() }
    );
    assert!(f64::from_bits(NAN_BITS).is_nan());
    assert_eq!(
        property(&context, global, "globalThis"),
        &Property { value: Value::Object(global), attribute: hid }
    );
    // Each value is an object of its own, made in the order of the list.
    let expected: Vec<(&str, usize)> = vec![
        ("Function", 3),
        ("Object", 1),
        ("Math", 5),
        ("JSON", 6),
        ("console", 7),
        ("Array", 8),
        ("BigInt", 10),
        ("Boolean", 12),
        ("Date", 14),
        ("Map", 16),
        ("Number", 18),
        ("String", 20),
        ("RegExp", 22),
        ("Symbol", 24),
        ("Error", 26),
        ("RangeError", 28),
        ("ReferenceError", 30),
        ("TypeError", 32),
        ("SyntaxError", 34),
    ];
    for (name, index) in expected {
        assert_eq!(
            property(&context, global, name),
            &Property { value: Value::Object(GcObject { index }), attribute: hid },
            "for the global {}",
            name
        );
    }
    // The ordinary objects.
    for index in [5, 6, 7] {
        let o = context.object(GcObject { index }).unwrap();
        assert_eq!(o.data, ObjectData::Ordinary);
        assert_eq!(o.prototype(), &Value::Object(GcObject { index: 2 }));
    }
    // The constructors, with their prototype objects behind them.
    let constructors: Vec<(&str, usize, usize, i32, bool)> = vec![
        ("Array", 8, ARRAY_CONSTRUCTOR, 1, true),
        ("BigInt", 10, BIGINT_CONSTRUCTOR, 1, false),
        ("Boolean", 12, BOOLEAN_CONSTRUCTOR, 1, true),
        ("Date", 14, 5, 7, true),
        ("Map", 16, 6, 0, true),
        ("Number", 18, 7, 1, true),
        ("String", 20, 8, 1, true),
        ("RegExp", 22, 9, 2, true),
        ("Symbol", 24, 10, 0, false),
        ("Error", 26, 11, 1, true),
        ("RangeError", 28, 12, 1, true),
        ("ReferenceError", 30, 13, 1, true),
        ("TypeError", 32, 14, 1, true),
        ("SyntaxError", 34, SYNTAX_ERROR_CONSTRUCTOR, 1, true),
    ];
    for (name, index, id, length, constructable) in constructors {
        let constructor = GcObject { index };
        let prototype = GcObject { index: index + 1 };
        assert_eq!(
            context.object(constructor).unwrap().data,
            ObjectData::Function(Function::BuiltIn(
                NativeFunction { id },
                FunctionFlags { callable: true, constructable }
            )),
            "for the global {}",
            name
        );
        assert_eq!(property(&context, constructor, "name").value, string(name));
        assert_eq!(property(&context, constructor, "length").value, Value::Integer(length));
        assert_eq!(property(&context, constructor, "prototype").value, Value::Object(prototype));
        assert_eq!(
            property(&context, prototype, "constructor").value,
            Value::Object(constructor)
        );
    }
    // The two constructors on the standard objects.
    assert_eq!(property(&context, GcObject { index: 1 }, "name").value, string("Object"));
    assert_eq!(property(&context, GcObject { index: 3 }, "name").value, string("Function"));
    assert_eq!(
        property(&context, GcObject { index: 2 }, "constructor").value,
        Value::Object(GcObject { index: 1 })
    );
}

#[test]
fn registering_one_global_makes_it_and_names_it() {
    let mut context = Context::new();
    register::<Math>(&mut context);
    assert_eq!(context.len(), 6);
    assert_eq!(
        property(&context, GcObject { index: 0 }, "Math").value,
        Value::Object(GcObject { index: 5 })
    );
    assert!(context.object(GcObject { index: 0 }).unwrap().property("JSON").is_none());
    register::<Json>(&mut context);
    register::<Console>(&mut context);
    register::<Date>(&mut context);
    assert_eq!(
        property(&context, GcObject { index: 0 }, "Date").value,
        Value::Object(GcObject { index: 8 })
    );
}

#[test]
fn attributes_unite() {
    let writable = Attribute { writable: true, enumerable: false, configurable: false };
    let enumerable = Attribute { writable: false, enumerable: true, configurable: false };
    assert_eq!(
        writable.union(enumerable),
        Attribute { writable: true, enumerable: true, configurable: false }
    );
    assert_eq!(Attribute::none().union(Attribute::none()), Attribute::none());
    assert_eq!(Attribute::none().union(Attribute::all()), Attribute::all());
}

#[test]
fn values_are_copied_whole() {
    for v in [
        Value::Undefined,
        Value::Null,
        Value::Boolean(true),
        Value::Integer(-3),
        Value::Rational(NAN_BITS),
        string("text"),
        Value::Object(GcObject { index: 2 }),
    ] {
        assert_eq!(v.duplicate(), v);
    }
    assert_eq!(Value::from_str("abc"), string("abc"));
}

#[test]
fn a_realm_keeps_its_invariant() {
    let mut context = Context::new();
    assert!(context.is_wf());
    let handle = context.allocate(Object::new());
    assert_eq!(handle, GcObject { index: 5 });
    context.insert_field(handle, "a", Value::Integer(1));
    context.set_prototype_instance(handle, Value::Null);
    context.set_data(handle, ObjectData::Global);
    assert!(context.is_wf());
    assert_eq!(context.object(handle).unwrap().data, ObjectData::Global);
    assert_eq!(property(&context, handle, "a").value, Value::Integer(1));
    let other = context.construct_object();
    assert_eq!(
        context.object(other).unwrap().prototype(),
        &Value::Object(GcObject { index: 2 })
    );
}

#[test]
fn init_names_every_global_and_takes_no_property_away() {
    let mut context = Context::new();
    let global = GcObject { index: 0 };
    let own = context.construct_object();
    context.insert_field(global, "mine", Value::Integer(1));
    context.insert_field(own, "kept", Value::Integer(2));
    let before = context.len();
    init(&mut context);
    assert_eq!(context.len(), before + 31);
    assert!(context.is_wf());
    for name in [
        "undefined", "Infinity", "NaN", "globalThis", "Function", "Object", "Math", "JSON",
        "console", "Array", "BigInt", "Boolean", "Date", "Map", "Number", "String", "RegExp",
        "Symbol", "Error", "RangeError", "ReferenceError", "TypeError", "SyntaxError",
    ] {
        assert!(
            context.object(global).unwrap().property(name).is_some(),
            "the global {} is missing",
            name
        );
    }
    assert_eq!(property(&context, global, "mine").value, Value::Integer(1));
    assert_eq!(property(&context, own, "kept").value, Value::Integer(2));
    // The objects that are made stand behind the one that was there.
    assert_eq!(property(&context, global, "Math").value, Value::Object(GcObject { index: before }));
}
