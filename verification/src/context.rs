//! The execution context: the objects of a realm.

use vstd::prelude::*;
use vstd::string::*;
use crate::object::{object_views, plain_object, Object, ObjectData, ObjectV};
use crate::property::Property;
use crate::value::{GcObject, Value, ValueV};

verus! {

/// The constructor and the prototype of a standard object.
#[derive(Clone, Copy, Debug, PartialEq, Eq, Structural)]
pub struct StandardConstructor {
    pub constructor: GcObject,
    pub prototype: GcObject,
}

/// The standard objects that exist before any global is registered.
#[derive(Clone, Copy, Debug, PartialEq, Eq, Structural)]
pub struct StandardObjects {
    pub object: StandardConstructor,
    pub function: StandardConstructor,
}

impl StandardConstructor {
    /// The prototype.
    pub fn prototype(&self) -> (p: GcObject)
        ensures
            p == self.prototype,
    {
        self.prototype
    }
}

impl StandardObjects {
    /// The standard object `Object`.
    pub fn object_object(&self) -> (s: StandardConstructor)
        ensures
            s == self.object,
    {
        self.object
    }

    /// The standard object `Function`.
    pub fn function_object(&self) -> (s: StandardConstructor)
        ensures
            s == self.function,
    {
        self.function
    }
}

/// A realm: its objects, among them the global object and the standard
/// objects. Objects are never removed, so a handle stays valid.
pub struct Context {
    heap: Vec<Object>,
    global: GcObject,
    standard: StandardObjects,
}

impl Context {
    /// The objects of the realm, by their handles' indices.
    pub closed spec fn objects(&self) -> Seq<ObjectV> {
        object_views(self.heap@)
    }

    /// The handle of the global object.
    pub closed spec fn global(&self) -> GcObject {
        self.global
    }

    /// The standard objects.
    pub closed spec fn standard(&self) -> StandardObjects {
        self.standard
    }

    /// Whether `object` is a handle of this realm.
    pub open spec fn has(&self, object: GcObject) -> bool {
        object.index < self.objects().len()
    }

    /// The invariant of a realm: the global object and the standard objects
    /// are objects of it, the constructor and the prototype of a standard
    /// object are two objects, and the number of objects fits a handle.
    pub open spec fn wf(&self) -> bool {
        &&& self.objects().len() <= usize::MAX
        &&& self.has(self.global())
        &&& self.has(self.standard().object.constructor)
        &&& self.has(self.standard().object.prototype)
        &&& self.has(self.standard().function.constructor)
        &&& self.has(self.standard().function.prototype)
        &&& self.standard().object.constructor != self.standard().object.prototype
        &&& self.standard().function.constructor != self.standard().function.prototype
    }

    /// Whether this realm has every object of `earlier`, the same global
    /// object and the same standard objects.
    pub open spec fn extends(&self, earlier: &Context) -> bool {
        &&& self.objects().len() >= earlier.objects().len()
        &&& self.global() == earlier.global()
        &&& self.standard() == earlier.standard()
    }

    /// A realm with a global object and the standard objects, all without
    /// properties.
    pub fn new() -> (c: Context)
        ensures
            c.wf(),
            c.objects().len() == 5,
            c.global().index == 0,
            c.objects()[0] == plain_object().with_data(ObjectData::Global),
            forall|i: int| 1 <= i < 5 ==> c.objects()[i] == plain_object(),
            c.standard() == (StandardObjects {
                object: StandardConstructor {
                    constructor: GcObject { index: 1 },
                    prototype: GcObject { index: 2 },
                },
                function: StandardConstructor {
                    constructor: GcObject { index: 3 },
                    prototype: GcObject { index: 4 },
                },
            }),
    {
        let mut heap: Vec<Object> = Vec::new();
        let mut global = Object::new();
        global.set_data(ObjectData::Global);
        heap.push(global);
        heap.push(Object::new());
        heap.push(Object::new());
        heap.push(Object::new());
        heap.push(Object::new());
        Context {
            heap,
            global: GcObject { index: 0 },
            standard: StandardObjects {
                object: StandardConstructor {
                    constructor: GcObject { index: 1 },
                    prototype: GcObject { index: 2 },
                },
                function: StandardConstructor {
                    constructor: GcObject { index: 3 },
                    prototype: GcObject { index: 4 },
                },
            },
        }
    }

    /// Makes `object` an object of the realm and returns its handle.
    pub fn allocate(&mut self, object: Object) -> (handle: GcObject)
        ensures
            final(self).objects() == old(self).objects().push(object@),
            final(self).objects().len() <= usize::MAX,
            handle.index == old(self).objects().len(),
            final(self).global() == old(self).global(),
            final(self).standard() == old(self).standard(),
    {
        let handle = GcObject { index: self.heap.len() };
        let ghost before = object_views(self.heap@);
        let ghost ov = object@;
        self.heap.push(object);
        assert(object_views(self.heap@) =~= before.push(ov));
        let n = self.heap.len();
        handle
    }

    /// Makes a new ordinary object whose prototype is the prototype of the
    /// standard object `Object`.
    pub fn construct_object(&mut self) -> (handle: GcObject)
        ensures
            final(self).objects() == old(self).objects().push(
                plain_object().with_prototype(
                    ValueV::Object(old(self).standard().object.prototype),
                ),
            ),
            final(self).objects().len() <= usize::MAX,
            handle.index == old(self).objects().len(),
            final(self).global() == old(self).global(),
            final(self).standard() == old(self).standard(),
    {
        let mut object = Object::new();
        object.set_prototype_instance(Value::Object(self.standard.object.prototype));
        self.allocate(object)
    }

    /// The object of a handle, if it is a handle of this realm.
    pub fn object(&self, handle: GcObject) -> (r: Option<&Object>)
        ensures
            match r {
                Some(o) => self.has(handle) && o@ == self.objects()[handle.index as int],
                None => !self.has(handle),
            },
    {
        if handle.index < self.heap.len() {
            Some(&self.heap[handle.index])
        } else {
            None
        }
    }

    /// Whether the invariant of the realm holds.
    pub fn is_wf(&self) -> (r: bool)
        ensures
            r == self.wf(),
    {
        let n = self.heap.len();
        self.global.index < n && self.standard.object.constructor.index < n
            && self.standard.object.prototype.index < n && self.standard.function.constructor.index
            < n && self.standard.function.prototype.index < n
            && self.standard.object.constructor.index != self.standard.object.prototype.index
            && self.standard.function.constructor.index
            != self.standard.function.prototype.index
    }

    /// The number of objects of the realm.
    pub fn len(&self) -> (n: usize)
        ensures
            n == self.objects().len(),
    {
        self.heap.len()
    }

    /// The standard objects.
    pub fn standard_objects(&self) -> (s: StandardObjects)
        ensures
            s == self.standard(),
    {
        self.standard
    }

    /// The global object, as a value.
    pub fn global_object(&self) -> (v: Value)
        ensures
            v@ == ValueV::Object(self.global()),
    {
        Value::Object(self.global)
    }

    /// Inserts a property of the object `object`.
    pub fn insert_property(&mut self, object: GcObject, key: &str, property: Property)
        requires
            old(self).has(object),
        ensures
            final(self).objects() == old(self).objects().update(
                object.index as int,
                old(self).objects()[object.index as int].with_property(
                    key.spec_bytes(),
                    property@,
                ),
            ),
            final(self).global() == old(self).global(),
            final(self).standard() == old(self).standard(),
    {
        let ghost before = object_views(self.heap@);
        let ghost pv = property@;
        let mut o = Object::new();
        core::mem::swap(&mut self.heap[object.index], &mut o);
        o.insert_property(key, property);
        self.heap[object.index] = o;
        assert(object_views(self.heap@) =~= before.update(
            object.index as int,
            before[object.index as int].with_property(key.spec_bytes(), pv),
        ));
    }

    /// Inserts a field of the object `object`.
    pub fn insert_field(&mut self, object: GcObject, key: &str, value: Value)
        requires
            old(self).has(object),
        ensures
            final(self).objects() == old(self).objects().update(
                object.index as int,
                old(self).objects()[object.index as int].with_field(key.spec_bytes(), value@),
            ),
            final(self).global() == old(self).global(),
            final(self).standard() == old(self).standard(),
    {
        let ghost before = object_views(self.heap@);
        let ghost vv = value@;
        let mut o = Object::new();
        core::mem::swap(&mut self.heap[object.index], &mut o);
        o.insert_field(key, value);
        self.heap[object.index] = o;
        assert(object_views(self.heap@) =~= before.update(
            object.index as int,
            before[object.index as int].with_field(key.spec_bytes(), vv),
        ));
    }

    /// Sets the prototype of the object `object`.
    pub fn set_prototype_instance(&mut self, object: GcObject, prototype: Value)
        requires
            old(self).has(object),
        ensures
            final(self).objects() == old(self).objects().update(
                object.index as int,
                old(self).objects()[object.index as int].with_prototype(prototype@),
            ),
            final(self).global() == old(self).global(),
            final(self).standard() == old(self).standard(),
    {
        let ghost before = object_views(self.heap@);
        let ghost pv = prototype@;
        let mut o = Object::new();
        core::mem::swap(&mut self.heap[object.index], &mut o);
        o.set_prototype_instance(prototype);
        self.heap[object.index] = o;
        assert(object_views(self.heap@) =~= before.update(
            object.index as int,
            before[object.index as int].with_prototype(pv),
        ));
    }

    /// Sets what the object `object` is.
    pub fn set_data(&mut self, object: GcObject, data: ObjectData)
        requires
            old(self).has(object),
        ensures
            final(self).objects() == old(self).objects().update(
                object.index as int,
                old(self).objects()[object.index as int].with_data(data),
            ),
            final(self).global() == old(self).global(),
            final(self).standard() == old(self).standard(),
    {
        let ghost before = object_views(self.heap@);
        let mut o = Object::new();
        core::mem::swap(&mut self.heap[object.index], &mut o);
        o.set_data(data);
        self.heap[object.index] = o;
        assert(object_views(self.heap@) =~= before.update(
            object.index as int,
            before[object.index as int].with_data(data),
        ));
    }
}

} // verus!
