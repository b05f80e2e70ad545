//! The state of a runtime as mathematics, and what each operation of the
//! binding layer does to it.

use vstd::prelude::*;
use crate::class::{ClassDescriptorModel, ClassRef, FieldKind, FieldModel, SlotKind};
use crate::error::{ConstructionError, PropertyAccessError, RegistrationError};
use crate::method::{checked_methods, MethodModel};
use crate::property::{
    entries_well_formed, names_distinct, table_len, AccessorModel, PropertySpecModel,
};
use crate::value::ValueModel;

verus! {

/// A self-hosted function: it reads, or as a setter writes, one slot of the
/// record behind the object it is called on.
pub struct IntrinsicModel {
    pub name: Seq<char>,
    pub slot: usize,
    pub setter: bool,
}

/// A property of a registered class, its accessor resolved to a slot.
pub struct PropertyModel {
    pub name: Seq<char>,
    pub flags: u8,
    pub slot: usize,
    pub writable: bool,
}

/// A registered class.
pub struct ClassModel {
    pub name: Seq<char>,
    /// The index of the parent class.
    pub parent: Option<usize>,
    /// The handle of the prototype object.
    pub prototype: usize,
    /// The slots of an instance's record: the parent's, then the class's own.
    pub layout: Seq<SlotKind>,
    pub properties: Seq<PropertyModel>,
    pub methods: Seq<MethodModel>,
}

/// An object of the heap.
pub enum ObjectModel {
    /// The prototype object of the class with this index. It has no record.
    Prototype(usize),
    /// An object made by the constructor of the class with this index, and
    /// its native record.
    Instance(usize, Seq<FieldModel>),
}

/// The state of a runtime.
pub struct RuntimeModel {
    pub intrinsics: Seq<IntrinsicModel>,
    pub classes: Seq<ClassModel>,
    pub objects: Seq<ObjectModel>,
}

/// `shorter` is how `longer` begins.
pub open spec fn is_prefix(shorter: Seq<SlotKind>, longer: Seq<SlotKind>) -> bool {
    &&& shorter.len() <= longer.len()
    &&& forall|i: int| 0 <= i < shorter.len() ==> shorter[i] == longer[i]
}

/// The field has the type that the slot asks for: for a slot that refers to
/// a class, it holds a record of that class, and for a list of such, a
/// sequence of them.
pub open spec fn fits(classes: Seq<ClassModel>, f: FieldModel, kind: SlotKind) -> bool
    decreases f,
{
    match kind {
        SlotKind::Int => f is Int,
        SlotKind::Bool => f is Bool,
        SlotKind::Text => f is Text,
        SlotKind::Object(k) => f matches FieldModel::Object(record) && k < classes.len()
            && record.len() == classes[k as int].layout.len() && forall|i: int|
            0 <= i < record.len() ==> fits(
                classes,
                #[trigger] record[i],
                classes[k as int].layout[i],
            ),
        SlotKind::ObjectList(k) => f matches FieldModel::ObjectList(items) && forall|i: int|
            0 <= i < items.len() ==> fits(classes, #[trigger] items[i], SlotKind::Object(k)),
    }
}

/// The record has one field for each slot of the layout, of the slot's type.
pub open spec fn record_fits(
    classes: Seq<ClassModel>,
    record: Seq<FieldModel>,
    layout: Seq<SlotKind>,
) -> bool {
    &&& record.len() == layout.len()
    &&& forall|i: int| 0 <= i < record.len() ==> fits(classes, #[trigger] record[i], layout[i])
}

/// The objects that reading a field makes: one for the record of an object
/// field, one for each record of a list, each of the class that the slot
/// names; none for any other field.
pub open spec fn wrappers(f: FieldModel, kind: SlotKind) -> Seq<ObjectModel> {
    match kind {
        SlotKind::Object(k) => seq![ObjectModel::Instance(k, f->Object_0)],
        SlotKind::ObjectList(k) => Seq::new(
            f->ObjectList_0.len(),
            |i: int| ObjectModel::Instance(k, f->ObjectList_0[i]->Object_0),
        ),
        _ => Seq::empty(),
    }
}

/// The script value that a field is read as, where the objects that the
/// reading makes get the handles from `base` on: an integer as a number, an
/// object as a reference to the object made for it, a list as an array of
/// such references.
pub open spec fn read_value(f: FieldModel, base: int) -> ValueModel {
    match f {
        FieldModel::Int(n) => ValueModel::Number(n),
        FieldModel::Bool(b) => ValueModel::Boolean(b),
        FieldModel::Text(s) => ValueModel::Text(s),
        FieldModel::Object(_) => ValueModel::Object(base as usize),
        FieldModel::ObjectList(items) => ValueModel::Array(
            Seq::new(items.len(), |i: int| ValueModel::Object((base + i) as usize)),
        ),
    }
}

/// The position of the first property called `name` at or behind `from`.
pub open spec fn first_named(props: Seq<PropertyModel>, name: Seq<char>, from: int) -> Option<int>
    decreases props.len() - from,
{
    if from < 0 || from >= props.len() {
        None
    } else if props[from].name == name {
        Some(from)
    } else {
        first_named(props, name, from + 1)
    }
}

/// The position of the first method called `name` at or behind `from`.
pub open spec fn first_method_named(methods: Seq<MethodModel>, name: Seq<char>, from: int)
    -> Option<int>
    decreases methods.len() - from,
{
    if from < 0 || from >= methods.len() {
        None
    } else if methods[from].name == name {
        Some(from)
    } else {
        first_method_named(methods, name, from + 1)
    }
}

/// The slot of the first self-hosted function at or behind `from` that is
/// called `name` and is a setter or not as `setter` says.
pub open spec fn first_intrinsic(
    intrinsics: Seq<IntrinsicModel>,
    name: Seq<char>,
    setter: bool,
    from: int,
) -> Option<usize>
    decreases intrinsics.len() - from,
{
    if from < 0 || from >= intrinsics.len() {
        None
    } else if intrinsics[from].name == name && intrinsics[from].setter == setter {
        Some(intrinsics[from].slot)
    } else {
        first_intrinsic(intrinsics, name, setter, from + 1)
    }
}

impl RuntimeModel {
    /// The runtime in which nothing is registered.
    pub open spec fn empty() -> RuntimeModel {
        RuntimeModel { intrinsics: Seq::empty(), classes: Seq::empty(), objects: Seq::empty() }
    }

    /// The class at index `k` is consistent with the heap and with its
    /// parent.
    pub open spec fn class_wf(self, k: int) -> bool {
        let class = self.classes[k];
        &&& class.prototype < self.objects.len()
        &&& self.objects[class.prototype as int] == ObjectModel::Prototype(k as usize)
        &&& match class.parent {
            Some(p) => p < k && is_prefix(self.classes[p as int].layout, class.layout),
            None => true,
        }
        &&& forall|i: int|
            0 <= i < class.properties.len() ==> (#[trigger] class.properties[i]).slot
                < class.layout.len()
        &&& forall|i: int, j: int|
            0 <= i < j < class.properties.len() ==> (#[trigger] class.properties[i]).name != (
            #[trigger] class.properties[j]).name
        &&& forall|i: int, j: int|
            0 <= i < j < class.methods.len() ==> (#[trigger] class.methods[i]).name != (
            #[trigger] class.methods[j]).name
    }

    /// The object with handle `o` belongs to a registered class, and its
    /// record, if it has one, has that class's layout.
    pub open spec fn object_wf(self, o: int) -> bool {
        match self.objects[o] {
            ObjectModel::Prototype(k) => k < self.classes.len() && self.classes[k as int].prototype
                == o,
            ObjectModel::Instance(k, record) => k < self.classes.len() && record_fits(
                self.classes,
                record,
                self.classes[k as int].layout,
            ),
        }
    }

    /// The state is one that the operations below can reach.
    pub open spec fn wf(self) -> bool {
        &&& self.classes.len() <= usize::MAX
        &&& self.objects.len() <= usize::MAX
        &&& forall|k: int| 0 <= k < self.classes.len() ==> #[trigger] self.class_wf(k)
        &&& forall|o: int| 0 <= o < self.objects.len() ==> #[trigger] self.object_wf(o)
    }

    /// Class `c` is class `k` or has it among its ancestors.
    pub open spec fn derives_from(self, c: usize, k: usize) -> bool
        decreases c,
    {
        c < self.classes.len() && (c == k || match self.classes[c as int].parent {
            Some(p) => p < c && self.derives_from(p, k),
            None => false,
        })
    }

    /// The class whose prototype object has handle `h`.
    pub open spec fn constructor_of(self, h: usize) -> Option<usize> {
        if h < self.objects.len() {
            match self.objects[h as int] {
                ObjectModel::Prototype(k) => Some(k),
                ObjectModel::Instance(_, _) => None,
            }
        } else {
            None
        }
    }

    /// The number of slots in the record of an instance of the class whose
    /// prototype object has handle `h`.
    pub open spec fn record_len(self, h: usize) -> Option<usize> {
        match self.constructor_of(h) {
            Some(k) => Some(self.classes[k as int].layout.len() as usize),
            None => None,
        }
    }

    /// The class in which the search for a property of object `o` starts.
    pub open spec fn class_of(self, o: usize) -> usize {
        match self.objects[o as int] {
            ObjectModel::Prototype(k) => k,
            ObjectModel::Instance(k, _) => k,
        }
    }

    /// The class whose prototype object the prototype chain of `o` starts
    /// with: for an instance its class, for a prototype object the parent of
    /// its class.
    pub open spec fn chain_start(self, o: usize) -> Option<usize> {
        if o < self.objects.len() {
            match self.objects[o as int] {
                ObjectModel::Prototype(k) => if k < self.classes.len() {
                    self.classes[k as int].parent
                } else {
                    None
                },
                ObjectModel::Instance(k, _) => Some(k),
            }
        } else {
            None
        }
    }

    /// The handle of the object that `o` has as its prototype.
    pub open spec fn prototype_of(self, o: usize) -> Option<usize> {
        match self.chain_start(o) {
            Some(k) => if k < self.classes.len() {
                Some(self.classes[k as int].prototype)
            } else {
                None
            },
            None => None,
        }
    }

    /// The prototype object `prototype` is on the prototype chain of `o`.
    pub open spec fn instance_of(self, o: usize, prototype: usize) -> bool {
        match (self.chain_start(o), self.constructor_of(prototype)) {
            (Some(c), Some(k)) => self.derives_from(c, k),
            _ => false,
        }
    }

    /// `o` has a native record, made by class `k` or by a class that derives
    /// from it.
    pub open spec fn is_record_of(self, o: usize, k: usize) -> bool {
        &&& o < self.objects.len()
        &&& self.objects[o as int] matches ObjectModel::Instance(c, _)
        &&& self.derives_from(c, k)
    }

    /// What a slot for class `k` holds for a reference to object `h`: the
    /// fields of `h` that class `k` declares, as they are.
    pub open spec fn snapshot(self, h: usize, k: usize) -> Seq<FieldModel> {
        self.objects[h as int]->Instance_1.take(self.classes[k as int].layout.len() as int)
    }

    /// The field that a script value converts to for a slot of the given
    /// kind, where it converts. A reference converts to a copy of the record
    /// behind it.
    pub open spec fn converts(self, kind: SlotKind, v: ValueModel) -> Option<FieldModel> {
        match kind {
            SlotKind::Int => match v {
                ValueModel::Number(n) => Some(FieldModel::Int(n)),
                _ => None,
            },
            SlotKind::Bool => match v {
                ValueModel::Boolean(b) => Some(FieldModel::Bool(b)),
                _ => None,
            },
            SlotKind::Text => match v {
                ValueModel::Text(s) => Some(FieldModel::Text(s)),
                _ => None,
            },
            SlotKind::Object(k) => match v {
                ValueModel::Object(h) => if self.is_record_of(h, k) {
                    Some(FieldModel::Object(self.snapshot(h, k)))
                } else {
                    None
                },
                _ => None,
            },
            SlotKind::ObjectList(k) => match v {
                ValueModel::Array(items) => if forall|i: int|
                    0 <= i < items.len() ==> self.is_reference_to(#[trigger] items[i], k) {
                    Some(
                        FieldModel::ObjectList(
                            Seq::new(
                                items.len(),
                                |i: int| FieldModel::Object(self.snapshot(items[i]->Object_0, k)),
                            ),
                        ),
                    )
                } else {
                    None
                },
                _ => None,
            },
        }
    }

    /// `v` is a reference to an object with a record of class `k`.
    pub open spec fn is_reference_to(self, v: ValueModel, k: usize) -> bool {
        v matches ValueModel::Object(h) && self.is_record_of(h, k)
    }

    /// The property called `name` that an object of class `c` has, from `c`
    /// itself or else from the nearest ancestor that has one.
    pub open spec fn find_property(self, c: usize, name: Seq<char>) -> Option<PropertyModel>
        decreases c,
    {
        if c >= self.classes.len() {
            None
        } else {
            let class = self.classes[c as int];
            match first_named(class.properties, name, 0) {
                Some(i) => Some(class.properties[i]),
                None => match class.parent {
                    Some(p) => if p < c {
                        self.find_property(p, name)
                    } else {
                        None
                    },
                    None => None,
                },
            }
        }
    }

    /// The method called `name` that an object of class `c` has, from `c`
    /// itself or else from the nearest ancestor that has one.
    pub open spec fn find_method(self, c: usize, name: Seq<char>) -> Option<MethodModel>
        decreases c,
    {
        if c >= self.classes.len() {
            None
        } else {
            let class = self.classes[c as int];
            match first_method_named(class.methods, name, 0) {
                Some(i) => Some(class.methods[i]),
                None => match class.parent {
                    Some(p) => if p < c {
                        self.find_method(p, name)
                    } else {
                        None
                    },
                    None => None,
                },
            }
        }
    }

    /// The method that a call of `name` on object `o` runs, or why there is
    /// none to run.
    pub open spec fn method(self, o: usize, name: Seq<char>) -> Result<
        MethodModel,
        PropertyAccessError,
    > {
        if o >= self.objects.len() {
            Err(PropertyAccessError::NoSuchObject)
        } else {
            match self.find_method(self.class_of(o), name) {
                None => Err(PropertyAccessError::NoSuchProperty),
                Some(f) => match self.objects[o as int] {
                    ObjectModel::Prototype(_) => Err(PropertyAccessError::Unbound),
                    ObjectModel::Instance(_, _) => Ok(f),
                },
            }
        }
    }

    /// What reading property `name` of object `o` gives, and the state after
    /// it: reading a field that holds records makes an object for each.
    pub open spec fn get(self, o: usize, name: Seq<char>) -> Result<
        (RuntimeModel, ValueModel),
        PropertyAccessError,
    > {
        if o >= self.objects.len() {
            Err(PropertyAccessError::NoSuchObject)
        } else {
            match self.find_property(self.class_of(o), name) {
                None => Err(PropertyAccessError::NoSuchProperty),
                Some(p) => match self.objects[o as int] {
                    ObjectModel::Prototype(_) => Err(PropertyAccessError::Unbound),
                    ObjectModel::Instance(k, record) => Ok(
                        (
                            RuntimeModel {
                                objects: self.objects + wrappers(
                                    record[p.slot as int],
                                    self.classes[k as int].layout[p.slot as int],
                                ),
                                ..self
                            },
                            read_value(record[p.slot as int], self.objects.len() as int),
                        ),
                    ),
                },
            }
        }
    }

    /// The state after `v` was assigned to property `name` of object `o`, or
    /// why the assignment is refused.
    pub open spec fn set(self, o: usize, name: Seq<char>, v: ValueModel) -> Result<
        RuntimeModel,
        PropertyAccessError,
    > {
        if o >= self.objects.len() {
            Err(PropertyAccessError::NoSuchObject)
        } else {
            match self.find_property(self.class_of(o), name) {
                None => Err(PropertyAccessError::NoSuchProperty),
                Some(p) => if !p.writable {
                    Err(PropertyAccessError::Immutable)
                } else {
                    match self.objects[o as int] {
                        ObjectModel::Prototype(_) => Err(PropertyAccessError::Unbound),
                        ObjectModel::Instance(k, record) => match self.converts(
                            self.classes[k as int].layout[p.slot as int],
                            v,
                        ) {
                            None => Err(PropertyAccessError::TypeConversion),
                            Some(f) => Ok(
                                RuntimeModel {
                                    objects: self.objects.update(
                                        o as int,
                                        ObjectModel::Instance(k, record.update(p.slot as int, f)),
                                    ),
                                    ..self
                                },
                            ),
                        },
                    }
                },
            }
        }
    }

    /// The position of the first argument at or behind `from` that does not
    /// convert to the kind of its slot.
    pub open spec fn first_mismatch(
        self,
        layout: Seq<SlotKind>,
        args: Seq<ValueModel>,
        from: int,
    ) -> Option<int>
        decreases layout.len() - from,
    {
        if from < 0 || from >= layout.len() {
            None
        } else if self.converts(layout[from], args[from]) is None {
            Some(from)
        } else {
            self.first_mismatch(layout, args, from + 1)
        }
    }

    /// The record that the arguments convert to.
    pub open spec fn converted(self, layout: Seq<SlotKind>, args: Seq<ValueModel>) -> Seq<
        FieldModel,
    > {
        Seq::new(layout.len(), |i: int| self.converts(layout[i], args[i])->Some_0)
    }

    /// The state after the constructor of the class with prototype
    /// `prototype` was called with `args`, and the handle of the new object;
    /// or why the call fails.
    pub open spec fn construct(self, prototype: usize, args: Seq<ValueModel>) -> Result<
        (RuntimeModel, usize),
        ConstructionError,
    > {
        match self.constructor_of(prototype) {
            None => Err(ConstructionError::NotAConstructor),
            Some(k) => {
                let layout = self.classes[k as int].layout;
                if args.len() != layout.len() {
                    Err(
                        ConstructionError::ArgumentCount {
                            expected: layout.len() as usize,
                            found: args.len() as usize,
                        },
                    )
                } else {
                    match self.first_mismatch(layout, args, 0) {
                        Some(i) => Err(ConstructionError::TypeConversion { index: i as usize }),
                        None => Ok(
                            (
                                RuntimeModel {
                                    objects: self.objects.push(
                                        ObjectModel::Instance(k, self.converted(layout, args)),
                                    ),
                                    ..self
                                },
                                self.objects.len() as usize,
                            ),
                        ),
                    }
                }
            },
        }
    }

    /// The class that a field's type names, seen from the class that is
    /// being registered.
    pub open spec fn resolve_class(self, class: ClassRef) -> Option<usize> {
        match class {
            ClassRef::Itself => Some(self.classes.len() as usize),
            ClassRef::Prototype(h) => self.constructor_of(h),
        }
    }

    /// The kind of slot that a declared field gets.
    pub open spec fn resolve_kind(self, kind: FieldKind) -> Option<SlotKind> {
        match kind {
            FieldKind::Int => Some(SlotKind::Int),
            FieldKind::Bool => Some(SlotKind::Bool),
            FieldKind::Text => Some(SlotKind::Text),
            FieldKind::Object(class) => match self.resolve_class(class) {
                Some(k) => Some(SlotKind::Object(k)),
                None => None,
            },
            FieldKind::ObjectList(class) => match self.resolve_class(class) {
                Some(k) => Some(SlotKind::ObjectList(k)),
                None => None,
            },
        }
    }

    /// The slot that an accessor reaches, and whether it can write it, in a
    /// record of `slots` slots.
    pub open spec fn resolve_accessor(self, accessor: AccessorModel, slots: int) -> Option<
        (usize, bool),
    > {
        match accessor {
            AccessorModel::Absent => None,
            AccessorModel::NativeGetter(slot) => if slot < slots {
                Some((slot, false))
            } else {
                None
            },
            AccessorModel::NativeGetterSetter(slot) => if slot < slots {
                Some((slot, true))
            } else {
                None
            },
            AccessorModel::SelfHostedGetter(getter) => match first_intrinsic(
                self.intrinsics,
                getter,
                false,
                0,
            ) {
                Some(slot) => if slot < slots {
                    Some((slot, false))
                } else {
                    None
                },
                None => None,
            },
            AccessorModel::SelfHostedGetterSetter(getter, setter) => match (
                first_intrinsic(self.intrinsics, getter, false, 0),
                first_intrinsic(self.intrinsics, setter, true, 0),
            ) {
                (Some(slot), Some(written)) => if slot == written && slot < slots {
                    Some((slot, true))
                } else {
                    None
                },
                _ => None,
            },
        }
    }

    /// The property that a table entry is registered as.
    pub open spec fn resolve_property(self, entry: PropertySpecModel, slots: int) -> PropertyModel {
        let resolved = self.resolve_accessor(entry.accessor, slots)->Some_0;
        PropertyModel {
            name: entry.name,
            flags: entry.flags,
            slot: resolved.0,
            writable: resolved.1,
        }
    }

    /// The layout that instances of a new class get: the parent's slots, then
    /// one for each declared field.
    pub open spec fn new_layout(self, parent: Option<usize>, fields: Seq<FieldKind>) -> Seq<
        SlotKind,
    > {
        let inherited = match parent {
            Some(p) => self.classes[p as int].layout,
            None => Seq::empty(),
        };
        inherited + Seq::new(fields.len(), |i: int| self.resolve_kind(fields[i])->Some_0)
    }

    /// The state after a class was registered from `descriptor` below the
    /// class with prototype `parent_prototype`, and the handle of the new
    /// prototype object; or why the runtime rejects the descriptor.
    pub open spec fn register_class(
        self,
        parent_prototype: Option<usize>,
        descriptor: ClassDescriptorModel,
    ) -> Result<(RuntimeModel, usize), RegistrationError> {
        let parent = match parent_prototype {
            Some(h) => self.constructor_of(h),
            None => None,
        };
        if parent_prototype is Some && parent is None {
            Err(RegistrationError::BadParent)
        } else {
            match table_len(descriptor.properties) {
                None => Err(RegistrationError::MissingSentinel),
                Some(len) => {
                    let layout = self.new_layout(parent, descriptor.fields);
                    if !entries_well_formed(descriptor.properties, len) {
                        Err(RegistrationError::MalformedEntry)
                    } else if !names_distinct(descriptor.properties, len) {
                        Err(RegistrationError::DuplicateProperty)
                    } else if checked_methods(descriptor.methods) is Err {
                        Err(checked_methods(descriptor.methods)->Err_0)
                    } else if exists|i: int|
                        0 <= i < descriptor.fields.len() && self.resolve_kind(
                            #[trigger] descriptor.fields[i],
                        ) is None {
                        Err(RegistrationError::UnknownClass)
                    } else if exists|i: int|
                        0 <= i < len && self.resolve_accessor(
                            (#[trigger] descriptor.properties[i]).accessor,
                            layout.len() as int,
                        ) is None {
                        Err(RegistrationError::UnresolvedAccessor)
                    } else {
                        Ok(
                            (
                                RuntimeModel {
                                    classes: self.classes.push(
                                        ClassModel {
                                            name: descriptor.class_name,
                                            parent,
                                            prototype: self.objects.len() as usize,
                                            layout,
                                            properties: Seq::new(
                                                len as nat,
                                                |i: int|
                                                    self.resolve_property(
                                                        descriptor.properties[i],
                                                        layout.len() as int,
                                                    ),
                                            ),
                                            methods: checked_methods(descriptor.methods)->Ok_0,
                                        },
                                    ),
                                    objects: self.objects.push(
                                        ObjectModel::Prototype(self.classes.len() as usize),
                                    ),
                                    ..self
                                },
                                self.objects.len() as usize,
                            ),
                        )
                    }
                },
            }
        }
    }

    /// The state after a self-hosted function was made known.
    pub open spec fn define_self_hosted(self, name: Seq<char>, slot: usize, setter: bool)
        -> RuntimeModel {
        RuntimeModel {
            intrinsics: self.intrinsics.push(IntrinsicModel { name, slot, setter }),
            ..self
        }
    }
}

} // verus!
