//! What holds of the objects of a realm once the globals are registered.

use vstd::prelude::*;
use crate::builtins::{
    ARRAY_CONSTRUCTOR, BIGINT_CONSTRUCTOR, BOOLEAN_CONSTRUCTOR, DATE_CONSTRUCTOR,
    ERROR_CONSTRUCTOR, FUNCTION_CONSTRUCTOR, MAP_CONSTRUCTOR, NUMBER_CONSTRUCTOR,
    OBJECT_CONSTRUCTOR, RANGE_ERROR_CONSTRUCTOR, REFERENCE_ERROR_CONSTRUCTOR, REGEXP_CONSTRUCTOR,
    STRING_CONSTRUCTOR, SYMBOL_CONSTRUCTOR, SYNTAX_ERROR_CONSTRUCTOR, TYPE_ERROR_CONSTRUCTOR,
    full_flags, handle, registered, with_constructor, with_globals, with_new_constructor,
    with_property,
    Array, BigInt, Boolean, BuiltIn, BuiltInFunctionObject, BuiltInMap, BuiltInObjectObject,
    Console, Date, Error, GlobalThis, Infinity, Json, Math, NaN, Number, RangeError,
    ReferenceError, RegExp, String, Symbol, SyntaxError, TypeError, Undefined,
};
use crate::context::StandardObjects;
use crate::object::{plain_object, FunctionFlags, NativeFunction, ObjectV};
use crate::property::Attribute;
use crate::value::{GcObject, ValueV};

verus! {

/// Whether `later` has every object of `earlier`, each under its index and
/// with a property under every key under which it had one.
pub open spec fn keeps(earlier: Seq<ObjectV>, later: Seq<ObjectV>) -> bool {
    &&& earlier.len() <= later.len()
    &&& forall|i: int, key: Seq<u8>|
        0 <= i < earlier.len() && #[trigger] earlier[i].properties.dom().contains(key)
            ==> later[i].properties.dom().contains(key)
}

/// Whether the object `object` has a property under `key`.
pub open spec fn named(objects: Seq<ObjectV>, object: GcObject, key: Seq<u8>) -> bool {
    objects[object.index as int].properties.dom().contains(key)
}

/// Whether the object `object` has a property under each of `keys`.
pub open spec fn named_all(objects: Seq<ObjectV>, object: GcObject, keys: Set<Seq<u8>>) -> bool {
    forall|key: Seq<u8>| #[trigger] keys.contains(key) ==> named(objects, object, key)
}

/// Whether the global object and the standard objects are objects of
/// `objects`.
pub open spec fn placed(
    objects: Seq<ObjectV>,
    global: GcObject,
    standard: StandardObjects,
) -> bool {
    &&& global.index < objects.len()
    &&& standard.object.constructor.index < objects.len()
    &&& standard.object.prototype.index < objects.len()
    &&& standard.function.constructor.index < objects.len()
    &&& standard.function.prototype.index < objects.len()
}

/// The names of the globals.
pub open spec fn global_names() -> Set<Seq<u8>> {
    set![
        Undefined::binding(),
        Infinity::binding(),
        NaN::binding(),
        GlobalThis::binding(),
        BuiltInFunctionObject::binding(),
        BuiltInObjectObject::binding(),
        Math::binding(),
        Json::binding(),
        Console::binding(),
        Array::binding(),
        BigInt::binding(),
        Boolean::binding(),
        Date::binding(),
        BuiltInMap::binding(),
        Number::binding(),
        String::binding(),
        RegExp::binding(),
        Symbol::binding(),
        Error::binding(),
        RangeError::binding(),
        ReferenceError::binding(),
        TypeError::binding(),
        SyntaxError::binding(),
    ]
}

/// What is kept twice in a row is kept.
pub proof fn lemma_keeps_on(first: Seq<ObjectV>, second: Seq<ObjectV>, third: Seq<ObjectV>)
    requires
        keeps(first, second),
        keeps(second, third),
    ensures
        keeps(first, third),
{
    assert forall|i: int, key: Seq<u8>|
        0 <= i < first.len() && #[trigger] first[i].properties.dom().contains(
            key,
        ) implies third[i].properties.dom().contains(key) by {
        assert(second[i].properties.dom().contains(key));
    }
}

/// A property that is given to an object takes nothing away, and is there.
pub proof fn lemma_property_keeps(
    objects: Seq<ObjectV>,
    target: GcObject,
    key: Seq<u8>,
    value: ValueV,
    attribute: Attribute,
)
    requires
        target.index < objects.len(),
    ensures
        keeps(objects, with_property(objects, target, key, value, attribute)),
        with_property(objects, target, key, value, attribute).len() == objects.len(),
        named(with_property(objects, target, key, value, attribute), target, key),
{
}

/// A constructor that is finished on two objects takes nothing away.
#[verifier::spinoff_prover]
pub proof fn lemma_constructor_keeps(
    objects: Seq<ObjectV>,
    constructor: GcObject,
    prototype: GcObject,
    function: NativeFunction,
    flags: FunctionFlags,
    length: usize,
    name: Seq<u8>,
    standard: StandardObjects,
)
    requires
        constructor.index < objects.len(),
        prototype.index < objects.len(),
    ensures
        keeps(
            objects,
            with_constructor(
                objects,
                constructor,
                prototype,
                function,
                flags,
                length,
                name,
                standard,
            ),
        ),
        with_constructor(
            objects,
            constructor,
            prototype,
            function,
            flags,
            length,
            name,
            standard,
        ).len() == objects.len(),
{
}

/// A constructor that is made on two new objects takes nothing away, and
/// adds those two.
#[verifier::spinoff_prover]
pub proof fn lemma_new_constructor_keeps(
    objects: Seq<ObjectV>,
    function: NativeFunction,
    flags: FunctionFlags,
    length: usize,
    name: Seq<u8>,
    standard: StandardObjects,
)
    ensures
        keeps(objects, with_new_constructor(objects, function, flags, length, name, standard)),
        with_new_constructor(objects, function, flags, length, name, standard).len()
            == objects.len() + 2,
{
    let room = objects.push(plain_object()).push(plain_object());
    assert(keeps(objects, room));
    lemma_constructor_keeps(
        room,
        handle(objects.len()),
        handle(objects.len() + 1),
        function,
        flags,
        length,
        name,
        standard,
    );
    lemma_keeps_on(
        objects,
        room,
        with_new_constructor(objects, function, flags, length, name, standard),
    );
}

/// A global that is registered takes nothing away, where making it takes
/// nothing away, and the global object has a property under its name.
pub proof fn lemma_registered<B: BuiltIn>(
    start: Seq<ObjectV>,
    objects: Seq<ObjectV>,
    global: GcObject,
    standard: StandardObjects,
    keys: Set<Seq<u8>>,
)
    requires
        global.index < start.len(),
        keeps(start, objects),
        keeps(objects, B::initialized(objects, global, standard)),
        named_all(objects, global, keys),
    ensures
        keeps(start, registered::<B>(objects, global, standard)),
        registered::<B>(objects, global, standard).len() == B::initialized(
            objects,
            global,
            standard,
        ).len(),
        named_all(registered::<B>(objects, global, standard), global, keys.insert(B::binding())),
{
    let made = B::initialized(objects, global, standard);
    let after = registered::<B>(objects, global, standard);
    lemma_property_keeps(
        made,
        global,
        B::binding(),
        B::value(objects, global, standard),
        B::attributes(),
    );
    lemma_keeps_on(objects, made, after);
    lemma_keeps_on(start, objects, after);
    assert forall|key: Seq<u8>| #[trigger]
        keys.insert(B::binding()).contains(key) implies named(after, global, key) by {
        if key != B::binding() {
            assert(keys.contains(key));
            assert(named(objects, global, key));
        }
    }
}

/// Once the globals are registered, the global object has a property under
/// the name of each of them. No object of the realm has lost a property,
/// and the realm has thirty-one objects more: one each for `Math`, `JSON`
/// and `console`, two for each of the fourteen constructors that are made
/// on objects of their own.
#[verifier::spinoff_prover]
pub proof fn lemma_every_global_is_named(
    objects: Seq<ObjectV>,
    global: GcObject,
    standard: StandardObjects,
)
    requires
        placed(objects, global, standard),
    ensures
        keeps(objects, with_globals(objects, global, standard)),
        with_globals(objects, global, standard).len() == objects.len() + 31,
        named_all(with_globals(objects, global, standard), global, global_names()),
{
    let k0 = Set::<Seq<u8>>::empty();
    lemma_registered::<Undefined>(objects, objects, global, standard, k0);
    let o1 = registered::<Undefined>(objects, global, standard);
    let k1 = k0.insert(Undefined::binding());
    lemma_registered::<Infinity>(objects, o1, global, standard, k1);
    let o2 = registered::<Infinity>(o1, global, standard);
    let k2 = k1.insert(Infinity::binding());
    lemma_registered::<NaN>(objects, o2, global, standard, k2);
    let o3 = registered::<NaN>(o2, global, standard);
    let k3 = k2.insert(NaN::binding());
    lemma_registered::<GlobalThis>(objects, o3, global, standard, k3);
    let o4 = registered::<GlobalThis>(o3, global, standard);
    let k4 = k3.insert(GlobalThis::binding());
    lemma_constructor_keeps(
        o4,
        standard.function.constructor,
        standard.function.prototype,
        NativeFunction { id: FUNCTION_CONSTRUCTOR },
        full_flags(),
        1,
        BuiltInFunctionObject::binding(),
        standard,
    );
    lemma_registered::<BuiltInFunctionObject>(objects, o4, global, standard, k4);
    let o5 = registered::<BuiltInFunctionObject>(o4, global, standard);
    let k5 = k4.insert(BuiltInFunctionObject::binding());
    lemma_constructor_keeps(
        o5,
        standard.object.constructor,
        standard.object.prototype,
        NativeFunction { id: OBJECT_CONSTRUCTOR },
        full_flags(),
        1,
        BuiltInObjectObject::binding(),
        standard,
    );
    lemma_registered::<BuiltInObjectObject>(objects, o5, global, standard, k5);
    let o6 = registered::<BuiltInObjectObject>(o5, global, standard);
    let k6 = k5.insert(BuiltInObjectObject::binding());
    lemma_registered::<Math>(objects, o6, global, standard, k6);
    let o7 = registered::<Math>(o6, global, standard);
    let k7 = k6.insert(Math::binding());
    lemma_registered::<Json>(objects, o7, global, standard, k7);
    let o8 = registered::<Json>(o7, global, standard);
    let k8 = k7.insert(Json::binding());
    lemma_registered::<Console>(objects, o8, global, standard, k8);
    let o9 = registered::<Console>(o8, global, standard);
    let k9 = k8.insert(Console::binding());
    assert(o9.len() == objects.len() + 3);
    lemma_made::<Array>(
        objects,
        o9,
        global,
        standard,
        k9,
        ARRAY_CONSTRUCTOR,
        true,
        1,
    );
    let o10 = registered::<Array>(o9, global, standard);
    let k10 = k9.insert(Array::binding());
    lemma_made::<BigInt>(
        objects,
        o10,
        global,
        standard,
        k10,
        BIGINT_CONSTRUCTOR,
        false,
        1,
    );
    let o11 = registered::<BigInt>(o10, global, standard);
    let k11 = k10.insert(BigInt::binding());
    lemma_made::<Boolean>(
        objects,
        o11,
        global,
        standard,
        k11,
        BOOLEAN_CONSTRUCTOR,
        true,
        1,
    );
    let o12 = registered::<Boolean>(o11, global, standard);
    let k12 = k11.insert(Boolean::binding());
    lemma_made::<Date>(
        objects,
        o12,
        global,
        standard,
        k12,
        DATE_CONSTRUCTOR,
        true,
        7,
    );
    let o13 = registered::<Date>(o12, global, standard);
    let k13 = k12.insert(Date::binding());
    lemma_made::<BuiltInMap>(
        objects,
        o13,
        global,
        standard,
        k13,
        MAP_CONSTRUCTOR,
        true,
        0,
    );
    let o14 = registered::<BuiltInMap>(o13, global, standard);
    let k14 = k13.insert(BuiltInMap::binding());
    lemma_made::<Number>(
        objects,
        o14,
        global,
        standard,
        k14,
        NUMBER_CONSTRUCTOR,
        true,
        1,
    );
    let o15 = registered::<Number>(o14, global, standard);
    let k15 = k14.insert(Number::binding());
    lemma_made::<String>(
        objects,
        o15,
        global,
        standard,
        k15,
        STRING_CONSTRUCTOR,
        true,
        1,
    );
    let o16 = registered::<String>(o15, global, standard);
    let k16 = k15.insert(String::binding());
    lemma_made::<RegExp>(
        objects,
        o16,
        global,
        standard,
        k16,
        REGEXP_CONSTRUCTOR,
        true,
        2,
    );
    let o17 = registered::<RegExp>(o16, global, standard);
    let k17 = k16.insert(RegExp::binding());
    lemma_made::<Symbol>(
        objects,
        o17,
        global,
        standard,
        k17,
        SYMBOL_CONSTRUCTOR,
        false,
        0,
    );
    let o18 = registered::<Symbol>(o17, global, standard);
    let k18 = k17.insert(Symbol::binding());
    lemma_made::<Error>(
        objects,
        o18,
        global,
        standard,
        k18,
        ERROR_CONSTRUCTOR,
        true,
        1,
    );
    let o19 = registered::<Error>(o18, global, standard);
    let k19 = k18.insert(Error::binding());
    lemma_made::<RangeError>(
        objects,
        o19,
        global,
        standard,
        k19,
        RANGE_ERROR_CONSTRUCTOR,
        true,
        1,
    );
    let o20 = registered::<RangeError>(o19, global, standard);
    let k20 = k19.insert(RangeError::binding());
    lemma_made::<ReferenceError>(
        objects,
        o20,
        global,
        standard,
        k20,
        REFERENCE_ERROR_CONSTRUCTOR,
        true,
        1,
    );
    let o21 = registered::<ReferenceError>(o20, global, standard);
    let k21 = k20.insert(ReferenceError::binding());
    lemma_made::<TypeError>(
        objects,
        o21,
        global,
        standard,
        k21,
        TYPE_ERROR_CONSTRUCTOR,
        true,
        1,
    );
    let o22 = registered::<TypeError>(o21, global, standard);
    let k22 = k21.insert(TypeError::binding());
    lemma_made::<SyntaxError>(
        objects,
        o22,
        global,
        standard,
        k22,
        SYNTAX_ERROR_CONSTRUCTOR,
        true,
        1,
    );
    assert(k22.insert(SyntaxError::binding()) == global_names());
}

/// A global that is a constructor on two objects of its own: registering
/// it takes nothing away and adds those two objects, and the global object
/// has a property under its name.
pub proof fn lemma_made<B: BuiltIn>(
    start: Seq<ObjectV>,
    objects: Seq<ObjectV>,
    global: GcObject,
    standard: StandardObjects,
    keys: Set<Seq<u8>>,
    id: usize,
    constructable: bool,
    length: usize,
)
    requires
        global.index < start.len(),
        keeps(start, objects),
        named_all(objects, global, keys),
        B::initialized(objects, global, standard) == with_new_constructor(
            objects,
            NativeFunction { id },
            FunctionFlags { callable: true, constructable },
            length,
            B::binding(),
            standard,
        ),
    ensures
        keeps(start, registered::<B>(objects, global, standard)),
        registered::<B>(objects, global, standard).len() == objects.len() + 2,
        named_all(registered::<B>(objects, global, standard), global, keys.insert(B::binding())),
{
    lemma_new_constructor_keeps(
        objects,
        NativeFunction { id },
        FunctionFlags { callable: true, constructable },
        length,
        B::binding(),
        standard,
    );
    lemma_registered::<B>(start, objects, global, standard, keys);
}

} // verus!
