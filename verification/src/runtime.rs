//! The runtime: registered classes, the objects made from them, and access
//! to their properties.

use vstd::prelude::*;
use vstd::string::*;
use crate::class::{
    duplicate_fields, field_models, lemma_fields_view, ClassDescriptor, ClassRef, FieldKind,
    FieldModel, FieldValue, SlotKind,
};
use crate::error::{ConstructionError, PropertyAccessError, RegistrationError};
use crate::laws::{
    lemma_construct_then_get, lemma_derives_registered, lemma_get, lemma_inherited_layout,
    lemma_property_in_layout, lemma_register_class, lemma_set_then_get,
};
use crate::method::{check_methods, method_models, Method};
use crate::model::{
    first_intrinsic, first_method_named, first_named, fits, read_value, wrappers, ClassModel,
    IntrinsicModel, ObjectModel, PropertyModel, RuntimeModel,
};
use crate::property::{
    check_entries, check_names, find_end, lemma_first_end, table_view, Accessor,
};
use crate::value::{lemma_array_view, models, Value, ValueModel};

verus! {

/// A self-hosted function that reads, or as a setter writes, one slot.
#[derive(Debug)]
struct Intrinsic {
    name: String,
    slot: usize,
    setter: bool,
}

/// A property of a registered class, its accessor resolved to a slot.
#[derive(Debug)]
struct Property {
    name: String,
    flags: u8,
    slot: usize,
    writable: bool,
}

/// A registered class. `layout` holds the parent's slots, then its own.
#[derive(Debug)]
struct Class {
    name: String,
    parent: Option<usize>,
    prototype: usize,
    layout: Vec<SlotKind>,
    properties: Vec<Property>,
    methods: Vec<Method>,
}

/// An object of the heap: the prototype object of a class, or an object made
/// by a class's constructor with its native record.
#[derive(Debug)]
enum ScriptObject {
    Prototype(usize),
    Instance(usize, Vec<FieldValue>),
}

/// A runtime: the self-hosted functions it knows, the classes registered
/// with it, and its heap of objects. Objects are named by handles.
#[derive(Debug)]
pub struct Runtime {
    intrinsics: Vec<Intrinsic>,
    classes: Vec<Class>,
    objects: Vec<ScriptObject>,
}

spec fn intrinsic_model(f: Intrinsic) -> IntrinsicModel {
    IntrinsicModel { name: f.name@, slot: f.slot, setter: f.setter }
}

spec fn property_model(p: Property) -> PropertyModel {
    PropertyModel { name: p.name@, flags: p.flags, slot: p.slot, writable: p.writable }
}

spec fn property_models(props: Seq<Property>) -> Seq<PropertyModel> {
    Seq::new(props.len(), |i: int| property_model(props[i]))
}

spec fn class_model(c: Class) -> ClassModel {
    ClassModel {
        name: c.name@,
        parent: c.parent,
        prototype: c.prototype,
        layout: c.layout@,
        properties: property_models(c.properties@),
        methods: method_models(c.methods@),
    }
}

spec fn object_model(o: ScriptObject) -> ObjectModel {
    match o {
        ScriptObject::Prototype(k) => ObjectModel::Prototype(k),
        ScriptObject::Instance(k, record) => ObjectModel::Instance(k, field_models(record@)),
    }
}

impl View for Runtime {
    type V = RuntimeModel;

    closed spec fn view(&self) -> RuntimeModel {
        RuntimeModel {
            intrinsics: Seq::new(
                self.intrinsics@.len(),
                |i: int| intrinsic_model(self.intrinsics@[i]),
            ),
            classes: Seq::new(self.classes@.len(), |i: int| class_model(self.classes@[i])),
            objects: Seq::new(self.objects@.len(), |i: int| object_model(self.objects@[i])),
        }
    }
}

impl Runtime {
    /// A runtime in which nothing is registered.
    pub fn new() -> (runtime: Runtime)
        ensures
            runtime@ == RuntimeModel::empty(),
            runtime@.wf(),
    {
        let runtime = Runtime { intrinsics: Vec::new(), classes: Vec::new(), objects: Vec::new() };
        assert(runtime@.intrinsics =~= Seq::empty());
        assert(runtime@.classes =~= Seq::empty());
        assert(runtime@.objects =~= Seq::empty());
        runtime
    }

    /// Makes a self-hosted function known under `name`: one that reads, or as
    /// a setter writes, slot `slot` of the record behind the object it is
    /// called on.
    pub fn define_self_hosted(&mut self, name: &str, slot: usize, setter: bool)
        requires
            old(self)@.wf(),
        ensures
            final(self)@ == old(self)@.define_self_hosted(name@, slot, setter),
            final(self)@.wf(),
    {
        self.intrinsics.push(Intrinsic { name: name.to_owned(), slot, setter });
        proof {
            let before = old(self)@;
            let after = self@;
            assert(after.intrinsics =~= before.intrinsics.push(
                IntrinsicModel { name: name@, slot, setter },
            ));
            assert(after.classes =~= before.classes);
            assert(after.objects =~= before.objects);
            assert forall|k: int| 0 <= k < after.classes.len() implies #[trigger] after.class_wf(
                k,
            ) by {
                assert(before.class_wf(k));
            }
            assert forall|o: int| 0 <= o < after.objects.len() implies #[trigger] after.object_wf(
                o,
            ) by {
                assert(before.object_wf(o));
            }
        }
    }

    /// The number of objects on the heap: the handle that the next object
    /// gets.
    pub fn object_count(&self) -> (count: usize)
        ensures
            count == self@.objects.len(),
    {
        self.objects.len()
    }

    fn constructor_of(&self, h: usize) -> (class: Option<usize>)
        ensures
            class == self@.constructor_of(h),
    {
        if h < self.objects.len() {
            match &self.objects[h] {
                ScriptObject::Prototype(k) => Some(*k),
                ScriptObject::Instance(_, _) => None,
            }
        } else {
            None
        }
    }

    /// The number of slots in the record of an instance of the class with
    /// prototype `prototype`: the number of arguments that its constructor
    /// takes.
    pub fn record_len(&self, prototype: usize) -> (len: Option<usize>)
        requires
            self@.wf(),
        ensures
            len == self@.record_len(prototype),
    {
        match self.constructor_of(prototype) {
            Some(k) => {
                proof {
                    assert(self@.object_wf(prototype as int));
                }
                Some(self.classes[k].layout.len())
            },
            None => None,
        }
    }

    fn derives(&self, c: usize, k: usize) -> (yes: bool)
        ensures
            yes == self@.derives_from(c, k),
    {
        let mut at: usize = c;
        loop
            invariant
                self@.derives_from(c, k) == self@.derives_from(at, k),
            decreases at,
        {
            if at >= self.classes.len() {
                return false;
            }
            if at == k {
                return true;
            }
            match self.classes[at].parent {
                Some(p) => {
                    if p < at {
                        at = p;
                    } else {
                        return false;
                    }
                },
                None => {
                    return false;
                },
            }
        }
    }

    fn chain_start(&self, o: usize) -> (class: Option<usize>)
        ensures
            class == self@.chain_start(o),
    {
        if o < self.objects.len() {
            match &self.objects[o] {
                ScriptObject::Prototype(k) => {
                    if *k < self.classes.len() {
                        self.classes[*k].parent
                    } else {
                        None
                    }
                },
                ScriptObject::Instance(k, _) => Some(*k),
            }
        } else {
            None
        }
    }

    /// The object that `o` has as its prototype: for an object made by a
    /// constructor the prototype object of its class, for the prototype
    /// object of a class that of the parent class.
    pub fn prototype_of(&self, o: usize) -> (prototype: Option<usize>)
        ensures
            prototype == self@.prototype_of(o),
    {
        match self.chain_start(o) {
            Some(k) => {
                if k < self.classes.len() {
                    Some(self.classes[k].prototype)
                } else {
                    None
                }
            },
            None => None,
        }
    }

    /// Whether `prototype`, the prototype object of a class, is on the
    /// prototype chain of `o`.
    pub fn instance_of(&self, o: usize, prototype: usize) -> (yes: bool)
        ensures
            yes == self@.instance_of(o, prototype),
    {
        match self.chain_start(o) {
            Some(c) => match self.constructor_of(prototype) {
                Some(k) => self.derives(c, k),
                None => false,
            },
            None => false,
        }
    }

    fn find_property(&self, c: usize, name: &String) -> (found: Option<(usize, bool)>)
        ensures
            match self@.find_property(c, name@) {
                Some(p) => found == Some((p.slot, p.writable)),
                None => found is None,
            },
    {
        let mut at: usize = c;
        loop
            invariant
                self@.find_property(c, name@) == self@.find_property(at, name@),
            decreases at,
        {
            if at >= self.classes.len() {
                return None;
            }
            let class = &self.classes[at];
            let ghost props = property_models(class.properties@);
            assert(self@.classes[at as int].properties == props);
            let mut i: usize = 0;
            while i < class.properties.len()
                invariant
                    at < self@.classes.len(),
                    self@.classes[at as int].properties == props,
                    self@.find_property(c, name@) == self@.find_property(at, name@),
                    props == property_models(class.properties@),
                    i <= class.properties.len(),
                    first_named(props, name@, 0) == first_named(props, name@, i as int),
                decreases class.properties.len() - i,
            {
                if class.properties[i].name == *name {
                    assert(props[i as int].name == name@);
                    return Some((class.properties[i].slot, class.properties[i].writable));
                }
                assert(props[i as int].name != name@);
                i += 1;
            }
            match class.parent {
                Some(p) => {
                    if p < at {
                        at = p;
                    } else {
                        return None;
                    }
                },
                None => {
                    return None;
                },
            }
        }
    }

    /// The method that a call of `name` on object `o` runs: the one that the
    /// object's class has under that name, or else the nearest ancestor that
    /// has one. The native function behind it is the host's to call.
    #[verifier::loop_isolation(false)]
    pub fn method(&self, o: usize, name: &str) -> (r: Result<Method, PropertyAccessError>)
        ensures
            match self@.method(o, name@) {
                Ok(f) => r matches Ok(found) && found@ == f,
                Err(e) => r matches Err(given) && given == e,
            },
    {
        if o >= self.objects.len() {
            return Err(PropertyAccessError::NoSuchObject);
        }
        let wanted = name.to_owned();
        let (class, bound) = match &self.objects[o] {
            ScriptObject::Prototype(k) => (*k, false),
            ScriptObject::Instance(k, _) => (*k, true),
        };
        let mut at: usize = class;
        loop
            invariant
                o < self@.objects.len(),
                class == self@.class_of(o),
                bound == (self@.objects[o as int] is Instance),
                self@.find_method(class, name@) == self@.find_method(at, name@),
            decreases at,
        {
            if at >= self.classes.len() {
                return Err(PropertyAccessError::NoSuchProperty);
            }
            let methods = &self.classes[at].methods;
            let ghost known = method_models(methods@);
            assert(self@.classes[at as int].methods == known);
            let mut i: usize = 0;
            while i < methods.len()
                invariant
                    o < self@.objects.len(),
                    class == self@.class_of(o),
                    bound == (self@.objects[o as int] is Instance),
                    at < self@.classes.len(),
                    self@.classes[at as int].methods == known,
                    self@.find_method(class, name@) == self@.find_method(at, name@),
                    known == method_models(methods@),
                    i <= methods.len(),
                    first_method_named(known, name@, 0) == first_method_named(
                        known,
                        name@,
                        i as int,
                    ),
                decreases methods.len() - i,
            {
                if methods[i].name == wanted {
                    assert(known[i as int].name == name@);
                    if bound {
                        return Ok(methods[i].duplicate());
                    } else {
                        return Err(PropertyAccessError::Unbound);
                    }
                }
                assert(known[i as int].name != name@);
                i += 1;
            }
            match self.classes[at].parent {
                Some(p) => {
                    if p < at {
                        at = p;
                    } else {
                        return Err(PropertyAccessError::NoSuchProperty);
                    }
                },
                None => {
                    return Err(PropertyAccessError::NoSuchProperty);
                },
            }
        }
    }

    /// Reads property `name` of object `o`. A property that holds a number,
    /// a boolean or a text reads as that value. One that holds the record of
    /// an object reads as a reference to a new object with a copy of that
    /// record, and one that holds a list of records as an array of such
    /// references, in the order of the list. Where the property cannot be
    /// read, nothing changes.
    #[verifier::loop_isolation(false)]
    pub fn get(&mut self, o: usize, name: &str) -> (r: Result<Value, PropertyAccessError>)
        requires
            old(self)@.wf(),
        ensures
            final(self)@.wf(),
            match old(self)@.get(o, name@) {
                Ok((after, v)) => r matches Ok(read) && read@ == v && final(self)@ == after,
                Err(e) => r matches Err(given) && given == e && final(self)@ == old(self)@,
            },
    {
        if o >= self.objects.len() {
            return Err(PropertyAccessError::NoSuchObject);
        }
        let wanted = name.to_owned();
        let class = match &self.objects[o] {
            ScriptObject::Prototype(k) => *k,
            ScriptObject::Instance(k, _) => *k,
        };
        let slot = match self.find_property(class, &wanted) {
            None => {
                return Err(PropertyAccessError::NoSuchProperty);
            },
            Some((slot, _)) => slot,
        };
        match &self.objects[o] {
            ScriptObject::Prototype(_) => {
                return Err(PropertyAccessError::Unbound);
            },
            ScriptObject::Instance(_, _) => {},
        }
        let ghost before = self@;
        let ghost after = before.get(o, name@)->Ok_0.0;
        let ghost record = before.objects[o as int]->Instance_1;
        let ghost field = record[slot as int];
        proof {
            assert(before.object_wf(o as int));
            lemma_property_in_layout(before, class, name@);
        }
        let kind = self.classes[class].layout[slot];
        let ghost made = wrappers(field, kind);
        let base = self.objects.len();
        let read = match kind {
            SlotKind::Object(c) => {
                let copy = match &self.objects[o] {
                    ScriptObject::Instance(_, fields) => match &fields[slot] {
                        FieldValue::Object(held) => {
                            proof {
                                lemma_fields_view(*held);
                            }
                            duplicate_fields(held, held.len())
                        },
                        _ => {
                            proof {
                                assert(false);
                            }
                            Vec::new()
                        },
                    },
                    ScriptObject::Prototype(_) => Vec::new(),
                };
                assert(field_models(copy@) =~= field->Object_0);
                self.objects.push(ScriptObject::Instance(c, copy));
                assert(self@.objects =~= before.objects + made);
                Value::Object(base)
            },
            SlotKind::ObjectList(c) => {
                let count = match &self.objects[o] {
                    ScriptObject::Instance(_, fields) => match &fields[slot] {
                        FieldValue::ObjectList(items) => {
                            proof {
                                lemma_fields_view(*items);
                            }
                            items.len()
                        },
                        _ => {
                            proof {
                                assert(false);
                            }
                            0
                        },
                    },
                    ScriptObject::Prototype(_) => 0,
                };
                let mut handles: Vec<Value> = Vec::new();
                let mut i: usize = 0;
                while i < count
                    invariant
                        i <= count == field->ObjectList_0.len(),
                        self.classes == old(self).classes,
                        self.intrinsics == old(self).intrinsics,
                        self@.objects == before.objects + made.take(i as int),
                        handles@.len() == i,
                        forall|j: int|
                            0 <= j < i ==> (#[trigger] handles@[j])@ == ValueModel::Object(
                                (base + j) as usize,
                            ),
                    decreases count - i,
                {
                    let ghost so_far = self@.objects;
                    assert(self@.objects[o as int] == before.objects[o as int]);
                    let copy = match &self.objects[o] {
                        ScriptObject::Instance(_, fields) => match &fields[slot] {
                            FieldValue::ObjectList(items) => {
                                proof {
                                    lemma_fields_view(*items);
                                }
                                match &items[i] {
                                    FieldValue::Object(held) => {
                                        proof {
                                            lemma_fields_view(*held);
                                        }
                                        duplicate_fields(held, held.len())
                                    },
                                    _ => {
                                        proof {
                                            assert(fits(
                                                before.classes,
                                                field->ObjectList_0[i as int],
                                                SlotKind::Object(c),
                                            ));
                                            assert(false);
                                        }
                                        Vec::new()
                                    },
                                }
                            },
                            _ => Vec::new(),
                        },
                        ScriptObject::Prototype(_) => Vec::new(),
                    };
                    assert(field_models(copy@) =~= field->ObjectList_0[i as int]->Object_0);
                    let handle = self.objects.len();
                    self.objects.push(ScriptObject::Instance(c, copy));
                    handles.push(Value::Object(handle));
                    let ghost wrapper = ObjectModel::Instance(
                        c,
                        field->ObjectList_0[i as int]->Object_0,
                    );
                    assert(made[i as int] == wrapper);
                    assert(self@.objects =~= so_far.push(wrapper));
                    assert(made.take(i + 1) =~= made.take(i as int).push(wrapper));
                    i += 1;
                    assert(self@.objects =~= before.objects + made.take(i as int));
                }
                assert(made.take(count as int) =~= made);
                proof {
                    lemma_array_view(handles);
                    assert(models(handles@) =~= read_value(
                        field,
                        base as int,
                    )->Array_0);
                }
                Value::Array(handles)
            },
            _ => {
                assert(before.objects + made =~= before.objects);
                match &self.objects[o] {
                    ScriptObject::Instance(_, fields) => match &fields[slot] {
                        FieldValue::Int(n) => Value::Number(*n),
                        FieldValue::Bool(b) => Value::Boolean(*b),
                        FieldValue::Text(s) => Value::Text(s.clone()),
                        _ => Value::Undefined,
                    },
                    ScriptObject::Prototype(_) => Value::Undefined,
                }
            },
        };
        proof {
            assert(self@.intrinsics =~= after.intrinsics);
            assert(self@.classes =~= after.classes);
            assert(self@.objects =~= after.objects);
            assert(self.objects.len() == self.objects@.len());
            lemma_get(before, o, name@);
        }
        Ok(read)
    }

    fn is_record_of(&self, o: usize, k: usize) -> (yes: bool)
        ensures
            yes == self@.is_record_of(o, k),
    {
        if o < self.objects.len() {
            match &self.objects[o] {
                ScriptObject::Instance(c, _) => self.derives(*c, k),
                ScriptObject::Prototype(_) => false,
            }
        } else {
            false
        }
    }

    fn snapshot(&self, h: usize, k: usize) -> (stored: Vec<FieldValue>)
        requires
            self@.wf(),
            self@.is_record_of(h, k),
        ensures
            field_models(stored@) == self@.snapshot(h, k),
    {
        proof {
            assert(self@.object_wf(h as int));
            lemma_derives_registered(self@, self@.class_of(h), k);
            lemma_inherited_layout(self@, self@.class_of(h), k);
        }
        let count = self.classes[k].layout.len();
        match &self.objects[h] {
            ScriptObject::Instance(_, fields) => duplicate_fields(fields, count),
            ScriptObject::Prototype(_) => Vec::new(),
        }
    }

    #[verifier::loop_isolation(false)]
    fn convert(&self, kind: SlotKind, v: &Value) -> (field: Option<FieldValue>)
        requires
            self@.wf(),
        ensures
            match self@.converts(kind, v@) {
                Some(f) => field matches Some(x) && x@ == f,
                None => field is None,
            },
    {
        match kind {
            SlotKind::Int => match v {
                Value::Number(n) => Some(FieldValue::Int(*n)),
                _ => None,
            },
            SlotKind::Bool => match v {
                Value::Boolean(b) => Some(FieldValue::Bool(*b)),
                _ => None,
            },
            SlotKind::Text => match v {
                Value::Text(s) => Some(FieldValue::Text(s.clone())),
                _ => None,
            },
            SlotKind::Object(k) => match v {
                Value::Object(h) => {
                    if self.is_record_of(*h, k) {
                        let stored = self.snapshot(*h, k);
                        proof {
                            lemma_fields_view(stored);
                        }
                        Some(FieldValue::Object(stored))
                    } else {
                        None
                    }
                },
                _ => None,
            },
            SlotKind::ObjectList(k) => match v {
                Value::Array(items) => {
                    proof {
                        lemma_array_view(*items);
                        assert(v@->Array_0 == models(items@));
                    }
                    let mut stored: Vec<FieldValue> = Vec::new();
                    let mut i: usize = 0;
                    while i < items.len()
                        invariant
                            i <= items.len(),
                            stored@.len() == i,
                            forall|j: int|
                                0 <= j < i ==> self@.is_reference_to(
                                    #[trigger] models(items@)[j],
                                    k,
                                ) && stored@[j]@ == FieldModel::Object(
                                    self@.snapshot(models(items@)[j]->Object_0, k),
                                ),
                        decreases items.len() - i,
                    {
                        match &items[i] {
                            Value::Object(h) => {
                                if self.is_record_of(*h, k) {
                                    let copy = self.snapshot(*h, k);
                                    proof {
                                        lemma_fields_view(copy);
                                    }
                                    stored.push(FieldValue::Object(copy));
                                } else {
                                    assert(!self@.is_reference_to(models(items@)[i as int], k));
                                    return None;
                                }
                            },
                            _ => {
                                assert(!self@.is_reference_to(models(items@)[i as int], k));
                                return None;
                            },
                        }
                        i += 1;
                    }
                    proof {
                        lemma_fields_view(stored);
                        assert(field_models(stored@) =~= self@.converts(
                            kind,
                            v@,
                        )->Some_0->ObjectList_0);
                    }
                    Some(FieldValue::ObjectList(stored))
                },
                _ => None,
            },
        }
    }

    /// Assigns `v` to property `name` of object `o`. Where the assignment is
    /// refused, nothing changes.
    pub fn set(&mut self, o: usize, name: &str, v: &Value) -> (r: Result<(), PropertyAccessError>)
        requires
            old(self)@.wf(),
        ensures
            final(self)@.wf(),
            match old(self)@.set(o, name@, v@) {
                Ok(after) => r is Ok && final(self)@ == after,
                Err(e) => r matches Err(given) && given == e && final(self)@ == old(self)@,
            },
    {
        if o >= self.objects.len() {
            return Err(PropertyAccessError::NoSuchObject);
        }
        let name = name.to_owned();
        let class = match &self.objects[o] {
            ScriptObject::Prototype(k) => *k,
            ScriptObject::Instance(k, _) => *k,
        };
        match self.find_property(class, &name) {
            None => Err(PropertyAccessError::NoSuchProperty),
            Some((slot, writable)) => {
                if !writable {
                    return Err(PropertyAccessError::Immutable);
                }
                match &self.objects[o] {
                    ScriptObject::Prototype(_) => {
                        return Err(PropertyAccessError::Unbound);
                    },
                    ScriptObject::Instance(_, _) => {},
                }
                proof {
                    assert(self@.object_wf(o as int));
                    lemma_property_in_layout(self@, class, name@);
                }
                let kind = self.classes[class].layout[slot];
                match self.convert(kind, v) {
                    None => Err(PropertyAccessError::TypeConversion),
                    Some(field) => {
                        let ghost before = self@;
                        let ghost after = before.set(o, name@, v@)->Ok_0;
                        match &mut self.objects[o] {
                            ScriptObject::Instance(_, record) => {
                                record[slot] = field;
                            },
                            ScriptObject::Prototype(_) => {},
                        }
                        proof {
                            assert(self@.intrinsics =~= after.intrinsics);
                            assert(self@.classes =~= after.classes);
                            let written = self@.objects[o as int]->Instance_1;
                            assert(written =~= after.objects[o as int]->Instance_1);
                            assert(self@.objects =~= after.objects);
                            lemma_set_then_get(before, o, name@, v@);
                        }
                        Ok(())
                    },
                }
            },
        }
    }

    /// Calls the constructor of the class with prototype `prototype`: checks
    /// the arguments against the fields of the class's record, in their
    /// order, and makes an object with that record. Where the call fails,
    /// nothing changes.
    pub fn construct(&mut self, prototype: usize, args: &Vec<Value>) -> (r: Result<
        usize,
        ConstructionError,
    >)
        requires
            old(self)@.wf(),
        ensures
            final(self)@.wf(),
            match old(self)@.construct(prototype, models(args@)) {
                Ok((after, o)) => r == Ok::<usize, ConstructionError>(o) && final(self)@ == after,
                Err(e) => r == Err::<usize, ConstructionError>(e) && final(self)@ == old(self)@,
            },
    {
        let k = match self.constructor_of(prototype) {
            None => {
                return Err(ConstructionError::NotAConstructor);
            },
            Some(k) => k,
        };
        proof {
            assert(self@.object_wf(prototype as int));
        }
        let n = self.classes[k].layout.len();
        if args.len() != n {
            return Err(ConstructionError::ArgumentCount { expected: n, found: args.len() });
        }
        let ghost before = self@;
        let ghost layout = before.classes[k as int].layout;
        let ghost given = models(args@);
        let mut record: Vec<FieldValue> = Vec::new();
        let mut i: usize = 0;
        while i < n
            invariant
                self@ == before,
                before.wf(),
                before.constructor_of(prototype) == Some(k),
                k < self.classes@.len(),
                layout == before.classes[k as int].layout,
                layout == self.classes@[k as int].layout@,
                given == models(args@),
                n == layout.len(),
                n == args@.len(),
                i <= n,
                record@.len() == i,
                before.first_mismatch(layout, given, 0) == before.first_mismatch(
                    layout,
                    given,
                    i as int,
                ),
                forall|j: int|
                    0 <= j < i ==> before.converts(layout[j], given[j]) == Some(
                        (#[trigger] record@[j])@,
                    ),
            decreases n - i,
        {
            let kind = self.classes[k].layout[i];
            match self.convert(kind, &args[i]) {
                Some(field) => {
                    record.push(field);
                },
                None => {
                    return Err(ConstructionError::TypeConversion { index: i });
                },
            }
            i += 1;
        }
        let id = self.objects.len();
        self.objects.push(ScriptObject::Instance(k, record));
        proof {
            let after = before.construct(prototype, given)->Ok_0.0;
            assert(field_models(record@) =~= before.converted(layout, given));
            assert(self@.intrinsics =~= after.intrinsics);
            assert(self@.classes =~= after.classes);
            assert(self@.objects =~= after.objects);
            assert(self.objects.len() == self.objects@.len());
            lemma_construct_then_get(before, prototype, given, Seq::empty());
        }
        Ok(id)
    }

    fn find_intrinsic(&self, name: &String, setter: bool) -> (slot: Option<usize>)
        ensures
            slot == first_intrinsic(self@.intrinsics, name@, setter, 0),
    {
        let ghost known = self@.intrinsics;
        let mut i: usize = 0;
        while i < self.intrinsics.len()
            invariant
                known == self@.intrinsics,
                i <= self.intrinsics.len(),
                first_intrinsic(known, name@, setter, 0) == first_intrinsic(
                    known,
                    name@,
                    setter,
                    i as int,
                ),
            decreases self.intrinsics.len() - i,
        {
            if self.intrinsics[i].name == *name && self.intrinsics[i].setter == setter {
                assert(known[i as int].name == name@ && known[i as int].setter == setter);
                return Some(self.intrinsics[i].slot);
            }
            assert(!(known[i as int].name == name@ && known[i as int].setter == setter));
            i += 1;
        }
        None
    }

    fn resolve_accessor(&self, accessor: &Accessor, slots: usize) -> (resolved: Option<
        (usize, bool),
    >)
        ensures
            resolved == self@.resolve_accessor(accessor@, slots as int),
    {
        match accessor {
            Accessor::Absent => None,
            Accessor::NativeGetter(slot) => if *slot < slots {
                Some((*slot, false))
            } else {
                None
            },
            Accessor::NativeGetterSetter(slot) => if *slot < slots {
                Some((*slot, true))
            } else {
                None
            },
            Accessor::SelfHostedGetter(getter) => match self.find_intrinsic(getter, false) {
                Some(slot) => if slot < slots {
                    Some((slot, false))
                } else {
                    None
                },
                None => None,
            },
            Accessor::SelfHostedGetterSetter(getter, setter) => {
                let read = self.find_intrinsic(getter, false);
                let written = self.find_intrinsic(setter, true);
                match (read, written) {
                    (Some(slot), Some(other)) => if slot == other && slot < slots {
                        Some((slot, true))
                    } else {
                        None
                    },
                    _ => None,
                }
            },
        }
    }

    fn resolve_class(&self, class: ClassRef) -> (resolved: Option<usize>)
        ensures
            resolved == self@.resolve_class(class),
    {
        match class {
            ClassRef::Itself => Some(self.classes.len()),
            ClassRef::Prototype(h) => self.constructor_of(h),
        }
    }

    fn resolve_kind(&self, kind: FieldKind) -> (resolved: Option<SlotKind>)
        ensures
            resolved == self@.resolve_kind(kind),
    {
        match kind {
            FieldKind::Int => Some(SlotKind::Int),
            FieldKind::Bool => Some(SlotKind::Bool),
            FieldKind::Text => Some(SlotKind::Text),
            FieldKind::Object(class) => match self.resolve_class(class) {
                Some(k) => Some(SlotKind::Object(k)),
                None => None,
            },
            FieldKind::ObjectList(class) => match self.resolve_class(class) {
                Some(k) => Some(SlotKind::ObjectList(k)),
                None => None,
            },
        }
    }

    /// Registers a class. With a parent prototype, the new class derives
    /// from the parent's class: its prototype object gets the parent's as its
    /// prototype, and its instances' records begin with the parent's fields.
    /// Returns the handle of the new prototype object. Where the descriptor
    /// is rejected, nothing changes.
    #[verifier::loop_isolation(false)]
    pub fn register_class(
        &mut self,
        parent_prototype: Option<usize>,
        descriptor: &ClassDescriptor,
    ) -> (r: Result<usize, RegistrationError>)
        requires
            old(self)@.wf(),
        ensures
            final(self)@.wf(),
            match old(self)@.register_class(parent_prototype, descriptor@) {
                Ok((after, prototype)) => final(self)@ == after && r == Ok::<
                    usize,
                    RegistrationError,
                >(prototype),
                Err(e) => r == Err::<usize, RegistrationError>(e) && final(self)@ == old(self)@,
            },
    {
        let ghost before = self@;
        let ghost table = table_view(descriptor.properties@);
        let ghost fields = descriptor.fields@;
        let parent: Option<usize> = match parent_prototype {
            Some(h) => match self.constructor_of(h) {
                Some(p) => {
                    proof {
                        assert(before.object_wf(h as int));
                    }
                    Some(p)
                },
                None => {
                    return Err(RegistrationError::BadParent);
                },
            },
            None => None,
        };
        let len = match find_end(&descriptor.properties) {
            None => {
                return Err(RegistrationError::MissingSentinel);
            },
            Some(n) => n,
        };
        proof {
            lemma_first_end(table, 0);
        }
        if !check_entries(&descriptor.properties, len) {
            return Err(RegistrationError::MalformedEntry);
        }
        if !check_names(&descriptor.properties, len) {
            return Err(RegistrationError::DuplicateProperty);
        }
        let methods = match check_methods(&descriptor.methods) {
            Ok(methods) => methods,
            Err(e) => {
                return Err(e);
            },
        };
        let mut layout: Vec<SlotKind> = Vec::new();
        match parent {
            Some(p) => {
                let mut j: usize = 0;
                while j < self.classes[p].layout.len()
                    invariant
                        p < self.classes@.len(),
                        j <= self.classes@[p as int].layout@.len(),
                        layout@ == self.classes@[p as int].layout@.subrange(0, j as int),
                    decreases self.classes@[p as int].layout@.len() - j,
                {
                    layout.push(self.classes[p].layout[j]);
                    j += 1;
                    assert(layout@ =~= self.classes@[p as int].layout@.subrange(0, j as int));
                }
                assert(layout@ =~= before.classes[p as int].layout);
            },
            None => {},
        }
        let ghost inherited = layout@;
        let mut i: usize = 0;
        while i < descriptor.fields.len()
            invariant
                self@ == before,
                fields == descriptor.fields@,
                i <= fields.len(),
                layout@.len() == inherited.len() + i,
                forall|j: int| 0 <= j < inherited.len() ==> layout@[j] == inherited[j],
                forall|j: int|
                    0 <= j < i ==> before.resolve_kind(#[trigger] fields[j]) == Some(
                        layout@[inherited.len() + j],
                    ),
            decreases descriptor.fields.len() - i,
        {
            match self.resolve_kind(descriptor.fields[i]) {
                Some(kind) => {
                    layout.push(kind);
                },
                None => {
                    assert(before.resolve_kind(fields[i as int]) is None);
                    return Err(RegistrationError::UnknownClass);
                },
            }
            i += 1;
        }
        assert(layout@ =~= before.new_layout(parent, fields));
        let slots = layout.len();
        let mut properties: Vec<Property> = Vec::new();
        let mut i: usize = 0;
        while i < len
            invariant
                self@ == before,
                table == table_view(descriptor.properties@),
                len <= descriptor.properties@.len(),
                i <= len,
                properties@.len() == i,
                forall|j: int|
                    0 <= j < i ==> before.resolve_accessor(
                        (#[trigger] table[j]).accessor,
                        slots as int,
                    ) is Some,
                forall|j: int|
                    0 <= j < i ==> property_model(#[trigger] properties@[j])
                        == before.resolve_property(table[j], slots as int),
            decreases len - i,
        {
            let entry = &descriptor.properties[i];
            match self.resolve_accessor(&entry.accessor, slots) {
                Some((slot, writable)) => {
                    properties.push(
                        Property { name: entry.name.clone(), flags: entry.flags, slot, writable },
                    );
                },
                None => {
                    assert(before.resolve_accessor(table[i as int].accessor, slots as int) is None);
                    return Err(RegistrationError::UnresolvedAccessor);
                },
            }
            i += 1;
        }
        let own = self.classes.len();
        let prototype = self.objects.len();
        self.objects.push(ScriptObject::Prototype(own));
        self.classes.push(
            Class {
                name: descriptor.class_name.clone(),
                parent,
                prototype,
                layout,
                properties,
                methods,
            },
        );
        proof {
            let after = before.register_class(parent_prototype, descriptor@)->Ok_0.0;
            assert(self.objects.len() == self.objects@.len());
            assert(self.classes.len() == self.classes@.len());
            assert(property_models(properties@) =~= after.classes[own as int].properties);
            assert(self@.intrinsics =~= after.intrinsics);
            assert(self@.classes =~= after.classes);
            assert(self@.objects =~= after.objects);
            lemma_register_class(before, parent_prototype, descriptor@);
        }
        Ok(prototype)
    }
}

} // verus!
