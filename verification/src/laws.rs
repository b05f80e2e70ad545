//! What holds of every state of a runtime, and of its operations taken
//! together.

use vstd::prelude::*;
use crate::class::{ClassDescriptorModel, FieldModel, SlotKind};
use crate::error::PropertyAccessError;
use crate::method::{first_method_end, lemma_first_method_end, methods_of};
use crate::model::{
    first_named, fits, is_prefix, read_value, record_fits, wrappers, ClassModel, ObjectModel,
    PropertyModel, RuntimeModel,
};
use crate::property::{lemma_first_end, table_len};
use crate::value::ValueModel;

verus! {

/// What `first_named` finds is the first property of that name.
pub proof fn lemma_first_named(props: Seq<PropertyModel>, name: Seq<char>, from: int)
    requires
        0 <= from,
    ensures
        match first_named(props, name, from) {
            Some(i) => from <= i < props.len() && props[i].name == name && forall|j: int|
                from <= j < i ==> (#[trigger] props[j]).name != name,
            None => forall|j: int| from <= j < props.len() ==> (#[trigger] props[j]).name != name,
        },
    decreases props.len() - from,
{
    if from < props.len() && props[from].name != name {
        lemma_first_named(props, name, from + 1);
    }
}

/// What `first_mismatch` finds is the first argument that does not convert.
pub proof fn lemma_first_mismatch(
    m: RuntimeModel,
    layout: Seq<SlotKind>,
    args: Seq<ValueModel>,
    from: int,
)
    requires
        0 <= from,
    ensures
        match m.first_mismatch(layout, args, from) {
            Some(i) => from <= i < layout.len() && m.converts(layout[i], args[i]) is None
                && forall|j: int|
                from <= j < i ==> (#[trigger] m.converts(layout[j], args[j])) is Some,
            None => forall|j: int|
                from <= j < layout.len() ==> (#[trigger] m.converts(layout[j], args[j])) is Some,
        },
    decreases layout.len() - from,
{
    if from < layout.len() && m.converts(layout[from], args[from]) is Some {
        lemma_first_mismatch(m, layout, args, from + 1);
    }
}

/// Only a registered class derives from anything, and only from a registered
/// class.
pub proof fn lemma_derives_registered(m: RuntimeModel, c: usize, k: usize)
    requires
        m.derives_from(c, k),
    ensures
        c < m.classes.len(),
        k < m.classes.len(),
        k <= c,
    decreases c,
{
    if c != k {
        lemma_derives_registered(m, m.classes[c as int].parent->Some_0, k);
    }
}

/// Deriving is transitive.
pub proof fn lemma_derives_transitive(m: RuntimeModel, a: usize, b: usize, c: usize)
    requires
        m.derives_from(a, b),
        m.derives_from(b, c),
    ensures
        m.derives_from(a, c),
    decreases a,
{
    if a != b {
        lemma_derives_transitive(m, m.classes[a as int].parent->Some_0, b, c);
    }
}

/// The record of a class begins with the record of each class that it
/// derives from.
pub proof fn lemma_inherited_layout(m: RuntimeModel, c: usize, k: usize)
    requires
        m.wf(),
        m.derives_from(c, k),
    ensures
        is_prefix(m.classes[k as int].layout, m.classes[c as int].layout),
    decreases c,
{
    if c != k {
        let p = m.classes[c as int].parent->Some_0;
        assert(m.class_wf(c as int));
        lemma_inherited_layout(m, p, k);
    }
}

/// A record fits a slot for a class exactly where it fits the class's
/// layout, and a list fits where each of its items does.
pub proof fn lemma_fits_records(classes: Seq<ClassModel>, fields: Seq<FieldModel>, k: usize)
    ensures
        fits(classes, FieldModel::Object(fields), SlotKind::Object(k)) <==> k < classes.len()
            && record_fits(classes, fields, classes[k as int].layout),
        fits(classes, FieldModel::ObjectList(fields), SlotKind::ObjectList(k)) <==> forall|
            i: int,
        |
            0 <= i < fields.len() ==> fits(classes, #[trigger] fields[i], SlotKind::Object(k)),
{
    assert(FieldModel::Object(fields)->Object_0 == fields);
    assert(FieldModel::ObjectList(fields)->ObjectList_0 == fields);
}

/// A field that fits a slot still fits it when more classes are registered.
pub proof fn lemma_fits_frame(
    classes: Seq<ClassModel>,
    more: Seq<ClassModel>,
    f: FieldModel,
    kind: SlotKind,
)
    requires
        classes.len() <= more.len(),
        forall|k: int| 0 <= k < classes.len() ==> classes[k] == more[k],
        fits(classes, f, kind),
    ensures
        fits(more, f, kind),
    decreases f,
{
    match kind {
        SlotKind::Object(k) => {
            let record = f->Object_0;
            assert(classes[k as int] == more[k as int]);
            assert forall|i: int| 0 <= i < record.len() implies fits(
                more,
                #[trigger] record[i],
                more[k as int].layout[i],
            ) by {
                lemma_fits_frame(classes, more, record[i], classes[k as int].layout[i]);
            }
        },
        SlotKind::ObjectList(k) => {
            let items = f->ObjectList_0;
            assert forall|i: int| 0 <= i < items.len() implies fits(
                more,
                #[trigger] items[i],
                SlotKind::Object(k),
            ) by {
                lemma_fits_frame(classes, more, items[i], SlotKind::Object(k));
            }
        },
        _ => {},
    }
}

/// What is stored for a reference to an object fits the slot it is stored
/// in.
pub proof fn lemma_snapshot_fits(m: RuntimeModel, h: usize, k: usize)
    requires
        m.wf(),
        m.is_record_of(h, k),
    ensures
        fits(m.classes, FieldModel::Object(m.snapshot(h, k)), SlotKind::Object(k)),
{
    let c = m.class_of(h);
    let record = m.objects[h as int]->Instance_1;
    assert(m.object_wf(h as int));
    lemma_derives_registered(m, c, k);
    lemma_inherited_layout(m, c, k);
    let layout = m.classes[k as int].layout;
    let stored = m.snapshot(h, k);
    assert(stored.len() == layout.len());
    assert forall|i: int| 0 <= i < stored.len() implies fits(
        m.classes,
        #[trigger] stored[i],
        layout[i],
    ) by {
        assert(stored[i] == record[i]);
        assert(layout[i] == m.classes[c as int].layout[i]);
    }
    lemma_fits_records(m.classes, stored, k);
}

/// A value that converts for a slot gives a field that fits the slot. Where
/// the slot holds no record, the field reads as that value and makes no
/// object.
pub proof fn lemma_converts(m: RuntimeModel, kind: SlotKind, v: ValueModel, base: int)
    requires
        m.wf(),
        m.converts(kind, v) is Some,
    ensures
        fits(m.classes, m.converts(kind, v)->Some_0, kind),
        kind is Int || kind is Bool || kind is Text ==> read_value(
            m.converts(kind, v)->Some_0,
            base,
        ) == v && wrappers(m.converts(kind, v)->Some_0, kind) == Seq::<ObjectModel>::empty(),
{
    match kind {
        SlotKind::Object(k) => {
            lemma_snapshot_fits(m, v->Object_0, k);
        },
        SlotKind::ObjectList(k) => {
            let items = v->Array_0;
            let stored = m.converts(kind, v)->Some_0->ObjectList_0;
            assert forall|i: int| 0 <= i < stored.len() implies fits(
                m.classes,
                #[trigger] stored[i],
                SlotKind::Object(k),
            ) by {
                assert(m.is_reference_to(items[i], k));
                lemma_snapshot_fits(m, items[i]->Object_0, k);
            }
            lemma_fits_records(m.classes, stored, k);
        },
        _ => {},
    }
}

/// A property that an object of class `c` has reads a slot of that class's
/// record.
pub proof fn lemma_property_in_layout(m: RuntimeModel, c: usize, name: Seq<char>)
    requires
        m.wf(),
        m.find_property(c, name) is Some,
    ensures
        c < m.classes.len(),
        m.find_property(c, name)->Some_0.slot < m.classes[c as int].layout.len(),
    decreases c,
{
    let class = m.classes[c as int];
    assert(m.class_wf(c as int));
    lemma_first_named(class.properties, name, 0);
    match first_named(class.properties, name, 0) {
        Some(i) => {
            assert(class.properties[i].slot < class.layout.len());
        },
        None => {
            lemma_property_in_layout(m, class.parent->Some_0, name);
        },
    }
}

/// Which classes a class derives from depends on the registered classes
/// alone, and stays as it is when more are registered.
pub proof fn lemma_derives_frame(m: RuntimeModel, n: RuntimeModel, c: usize, k: usize)
    requires
        c < m.classes.len() <= n.classes.len(),
        forall|j: int| 0 <= j < m.classes.len() ==> m.classes[j] == n.classes[j],
    ensures
        m.derives_from(c, k) == n.derives_from(c, k),
    decreases c,
{
    assert(m.classes[c as int] == n.classes[c as int]);
    match m.classes[c as int].parent {
        Some(p) => {
            if p < c {
                lemma_derives_frame(m, n, p, k);
            }
        },
        None => {},
    }
}

/// Which properties a class has depends on the registered classes alone, and
/// stays as it is when more are registered.
pub proof fn lemma_find_property_frame(m: RuntimeModel, n: RuntimeModel, c: usize, name: Seq<char>)
    requires
        c < m.classes.len() <= n.classes.len(),
        forall|j: int| 0 <= j < m.classes.len() ==> m.classes[j] == n.classes[j],
    ensures
        m.find_property(c, name) == n.find_property(c, name),
    decreases c,
{
    assert(m.classes[c as int] == n.classes[c as int]);
    match m.classes[c as int].parent {
        Some(p) => {
            if p < c {
                lemma_find_property_frame(m, n, p, name);
            }
        },
        None => {},
    }
}

/// An object that has a class's prototype on its prototype chain has there
/// the prototype of the class's parent too, and that of each ancestor of the
/// parent.
pub proof fn lemma_instance_of_ancestors(
    m: RuntimeModel,
    o: usize,
    prototype: usize,
    ancestor_prototype: usize,
)
    requires
        m.wf(),
        m.instance_of(o, prototype),
        m.constructor_of(prototype) matches Some(c) && m.classes[c as int].parent matches Some(p)
            && m.constructor_of(ancestor_prototype) matches Some(a) && m.derives_from(p, a),
    ensures
        m.instance_of(o, ancestor_prototype),
{
    let start = m.chain_start(o)->Some_0;
    let c = m.constructor_of(prototype)->Some_0;
    let a = m.constructor_of(ancestor_prototype)->Some_0;
    lemma_derives_registered(m, start, c);
    assert(m.class_wf(c as int));
    assert(m.derives_from(c, a));
    lemma_derives_transitive(m, start, c, a);
}

/// Reading a property leaves the state one that the operations can reach,
/// changes no object that was there, and each object that it makes holds one
/// of the records of the field that was read.
pub proof fn lemma_get(m: RuntimeModel, o: usize, name: Seq<char>)
    requires
        m.wf(),
        m.get(o, name) is Ok,
        m.get(o, name)->Ok_0.0.objects.len() <= usize::MAX,
    ensures
        m.get(o, name)->Ok_0.0.wf(),
        extends(m, m.get(o, name)->Ok_0.0),
        forall|h: int|
            0 <= h < m.objects.len() ==> m.get(o, name)->Ok_0.0.objects[h] == m.objects[h],
{
    let after = m.get(o, name)->Ok_0.0;
    let k = m.class_of(o);
    let p = m.find_property(k, name)->Some_0;
    assert(m.object_wf(o as int));
    lemma_property_in_layout(m, k, name);
    let record = m.objects[o as int]->Instance_1;
    let f = record[p.slot as int];
    let kind = m.classes[k as int].layout[p.slot as int];
    assert(fits(m.classes, f, kind));
    let made = wrappers(f, kind);
    assert forall|j: int| 0 <= j < after.classes.len() implies #[trigger] after.class_wf(j) by {
        assert(m.class_wf(j));
    }
    assert forall|j: int| 0 <= j < after.objects.len() implies #[trigger] after.object_wf(j) by {
        if j < m.objects.len() {
            assert(m.object_wf(j));
        } else {
            let i = j - m.objects.len();
            assert(after.objects[j] == made[i]);
            match kind {
                SlotKind::Object(c) => {
                    lemma_fits_records(m.classes, f->Object_0, c);
                },
                SlotKind::ObjectList(c) => {
                    lemma_fits_records(m.classes, f->ObjectList_0, c);
                    let item = f->ObjectList_0[i];
                    assert(fits(m.classes, item, SlotKind::Object(c)));
                    lemma_fits_records(m.classes, item->Object_0, c);
                },
                _ => {},
            }
        }
    }
}

/// An object made by a constructor has the constructor's prototype as its
/// prototype. Each property of its class that reads a number, a boolean or a
/// text reads as the argument that was passed for the property's slot, and
/// reading it changes nothing.
pub proof fn lemma_construct_then_get(
    m: RuntimeModel,
    prototype: usize,
    args: Seq<ValueModel>,
    name: Seq<char>,
)
    requires
        m.wf(),
        m.objects.len() < usize::MAX,
        m.construct(prototype, args) is Ok,
    ensures
        ({
            let (after, o) = m.construct(prototype, args)->Ok_0;
            let k = m.constructor_of(prototype)->Some_0;
            &&& o == m.objects.len()
            &&& after.wf()
            &&& after.prototype_of(o) == Some(prototype)
            &&& after.instance_of(o, prototype)
            &&& match m.find_property(k, name) {
                Some(p) => {
                    let kind = m.classes[k as int].layout[p.slot as int];
                    &&& after.get(o, name) is Ok
                    &&& kind is Int || kind is Bool || kind is Text ==> after.get(o, name)
                        == Ok::<(RuntimeModel, ValueModel), PropertyAccessError>(
                        (after, args[p.slot as int]),
                    )
                },
                None => after.get(o, name) == Err::<
                    (RuntimeModel, ValueModel),
                    PropertyAccessError,
                >(PropertyAccessError::NoSuchProperty),
            }
        }),
{
    let (after, o) = m.construct(prototype, args)->Ok_0;
    let k = m.constructor_of(prototype)->Some_0;
    let layout = m.classes[k as int].layout;
    let record = m.converted(layout, args);
    assert(m.object_wf(prototype as int));
    assert(m.class_wf(k as int));
    lemma_first_mismatch(m, layout, args, 0);
    assert forall|i: int| 0 <= i < record.len() implies fits(
        m.classes,
        #[trigger] record[i],
        layout[i],
    ) by {
        assert(m.converts(layout[i], args[i]) is Some);
        lemma_converts(m, layout[i], args[i], 0);
    }
    assert(record_fits(m.classes, record, layout));
    assert forall|j: int| 0 <= j < after.classes.len() implies #[trigger] after.class_wf(j) by {
        assert(m.class_wf(j));
    }
    assert forall|j: int| 0 <= j < after.objects.len() implies #[trigger] after.object_wf(j) by {
        if j < m.objects.len() {
            assert(m.object_wf(j));
        }
    }
    lemma_find_property_frame(m, after, k, name);
    assert(after.derives_from(k, k));
    if m.find_property(k, name) is Some {
        lemma_property_in_layout(m, k, name);
        let p = m.find_property(k, name)->Some_0;
        assert(m.converts(layout[p.slot as int], args[p.slot as int]) is Some);
        lemma_converts(m, layout[p.slot as int], args[p.slot as int], after.objects.len() as int);
        assert(after.objects + Seq::<ObjectModel>::empty() =~= after.objects);
    }
}

/// A field that was filled from a reference to an object holds that object's
/// record as it was then, cut to the fields of the slot's class; and the
/// object that reading the field makes has that record.
pub proof fn lemma_construct_then_get_object(
    m: RuntimeModel,
    prototype: usize,
    args: Seq<ValueModel>,
    name: Seq<char>,
)
    requires
        m.wf(),
        m.objects.len() < usize::MAX,
        m.construct(prototype, args) is Ok,
        m.find_property(m.constructor_of(prototype)->Some_0, name) is Some,
    ensures
        ({
            let (after, o) = m.construct(prototype, args)->Ok_0;
            let k = m.constructor_of(prototype)->Some_0;
            let p = m.find_property(k, name)->Some_0;
            let (then, v) = after.get(o, name)->Ok_0;
            &&& after.get(o, name) is Ok
            &&& match m.classes[k as int].layout[p.slot as int] {
                SlotKind::Object(c) => {
                    &&& args[p.slot as int] is Object
                    &&& v == ValueModel::Object(after.objects.len() as usize)
                    &&& then.objects == after.objects.push(
                        ObjectModel::Instance(c, m.snapshot(args[p.slot as int]->Object_0, c)),
                    )
                },
                SlotKind::ObjectList(c) => {
                    let children = args[p.slot as int]->Array_0;
                    &&& args[p.slot as int] is Array
                    &&& v is Array
                    &&& v->Array_0.len() == children.len()
                    &&& then.objects.len() == after.objects.len() + children.len()
                    &&& forall|i: int|
                        0 <= i < children.len() ==> {
                            &&& (#[trigger] children[i]) is Object
                            &&& v->Array_0[i] == ValueModel::Object(
                                (after.objects.len() + i) as usize,
                            )
                            &&& then.objects[after.objects.len() + i] == ObjectModel::Instance(
                                c,
                                m.snapshot(children[i]->Object_0, c),
                            )
                        }
                },
                _ => true,
            }
        }),
{
    let (after, o) = m.construct(prototype, args)->Ok_0;
    let k = m.constructor_of(prototype)->Some_0;
    let layout = m.classes[k as int].layout;
    let p = m.find_property(k, name)->Some_0;
    assert(m.object_wf(prototype as int));
    lemma_first_mismatch(m, layout, args, 0);
    lemma_find_property_frame(m, after, k, name);
    lemma_property_in_layout(m, k, name);
    assert(m.converts(layout[p.slot as int], args[p.slot as int]) is Some);
    let stored = m.converted(layout, args)[p.slot as int];
    let (then, v) = after.get(o, name)->Ok_0;
    match layout[p.slot as int] {
        SlotKind::Object(c) => {
            assert(then.objects =~= after.objects.push(
                ObjectModel::Instance(c, m.snapshot(args[p.slot as int]->Object_0, c)),
            ));
        },
        SlotKind::ObjectList(c) => {
            let children = args[p.slot as int]->Array_0;
            assert forall|i: int| 0 <= i < children.len() implies {
                &&& (#[trigger] children[i]) is Object
                &&& v->Array_0[i] == ValueModel::Object((after.objects.len() + i) as usize)
                &&& then.objects[after.objects.len() + i] == ObjectModel::Instance(
                    c,
                    m.snapshot(children[i]->Object_0, c),
                )
            } by {
                assert(m.is_reference_to(children[i], c));
                assert(stored->ObjectList_0[i] == FieldModel::Object(
                    m.snapshot(children[i]->Object_0, c),
                ));
            }
        },
        _ => {},
    }
}

/// A property that was assigned a number, a boolean or a text reads as that
/// value, and reading it changes nothing. Whatever was assigned, the state
/// stays one that the operations can reach.
pub proof fn lemma_set_then_get(m: RuntimeModel, o: usize, name: Seq<char>, v: ValueModel)
    requires
        m.wf(),
        m.set(o, name, v) is Ok,
    ensures
        m.set(o, name, v)->Ok_0.wf(),
        m.set(o, name, v)->Ok_0.get(o, name) is Ok,
        v is Number || v is Boolean || v is Text ==> m.set(o, name, v)->Ok_0.get(o, name) == Ok::<
            (RuntimeModel, ValueModel),
            PropertyAccessError,
        >((m.set(o, name, v)->Ok_0, v)),
{
    let after = m.set(o, name, v)->Ok_0;
    let c = m.class_of(o);
    let p = m.find_property(c, name)->Some_0;
    assert(m.object_wf(o as int));
    lemma_property_in_layout(m, c, name);
    let record = m.objects[o as int]->Instance_1;
    let layout = m.classes[c as int].layout;
    lemma_converts(m, layout[p.slot as int], v, after.objects.len() as int);
    let f = m.converts(layout[p.slot as int], v)->Some_0;
    assert(record_fits(m.classes, record.update(p.slot as int, f), layout));
    assert forall|j: int| 0 <= j < after.classes.len() implies #[trigger] after.class_wf(j) by {
        assert(m.class_wf(j));
        assert(m.object_wf(o as int));
    }
    assert forall|j: int| 0 <= j < after.objects.len() implies #[trigger] after.object_wf(j) by {
        assert(m.object_wf(j));
    }
    lemma_find_property_frame(m, after, c, name);
    assert(after.objects + Seq::<ObjectModel>::empty() =~= after.objects);
}

/// Assigning to a property of an object leaves every other object as it
/// was, also those whose records were copied from that object's, and every
/// property of the same object that reads another slot: each still reads
/// what it read.
pub proof fn lemma_set_leaves_others(
    m: RuntimeModel,
    o: usize,
    name: Seq<char>,
    v: ValueModel,
    other: usize,
    other_name: Seq<char>,
)
    requires
        m.wf(),
        m.set(o, name, v) is Ok,
        other < m.objects.len(),
        other != o || (m.find_property(m.class_of(o), other_name) matches Some(q) && q.slot
            != m.find_property(m.class_of(o), name)->Some_0.slot),
    ensures
        other != o ==> m.set(o, name, v)->Ok_0.objects[other as int] == m.objects[other as int],
        match m.get(other, other_name) {
            Ok((_, read)) => m.set(o, name, v)->Ok_0.get(other, other_name) matches Ok(
                (_, again),
            ) && again == read,
            Err(e) => m.set(o, name, v)->Ok_0.get(other, other_name) matches Err(f) && f == e,
        },
{
    let after = m.set(o, name, v)->Ok_0;
    assert(m.object_wf(other as int));
    assert(m.object_wf(o as int));
    lemma_find_property_frame(m, after, m.class_of(other), other_name);
    if other == o {
        lemma_property_in_layout(m, m.class_of(o), name);
        lemma_property_in_layout(m, m.class_of(o), other_name);
    }
}

/// Assigning to a property that has no setter is refused.
pub proof fn lemma_read_only_rejects(m: RuntimeModel, o: usize, name: Seq<char>, v: ValueModel)
    requires
        o < m.objects.len(),
        m.find_property(m.class_of(o), name) matches Some(p) && !p.writable,
    ensures
        m.set(o, name, v) == Err::<RuntimeModel, PropertyAccessError>(
            PropertyAccessError::Immutable,
        ),
{
}

/// Registering a class leaves the objects and classes that were there as
/// they were, and gives the new prototype object the parent's prototype
/// object as its prototype.
pub proof fn lemma_register_class(
    m: RuntimeModel,
    parent_prototype: Option<usize>,
    descriptor: ClassDescriptorModel,
)
    requires
        m.wf(),
        m.classes.len() < usize::MAX,
        m.objects.len() < usize::MAX,
        m.register_class(parent_prototype, descriptor) is Ok,
    ensures
        ({
            let (after, prototype) = m.register_class(parent_prototype, descriptor)->Ok_0;
            &&& after.wf()
            &&& prototype == m.objects.len()
            &&& after.constructor_of(prototype) == Some(m.classes.len() as usize)
            &&& after.prototype_of(prototype) == parent_prototype
            &&& forall|o: int| 0 <= o < m.objects.len() ==> after.objects[o] == m.objects[o]
            &&& forall|k: int| 0 <= k < m.classes.len() ==> after.classes[k] == m.classes[k]
        }),
{
    let (after, prototype) = m.register_class(parent_prototype, descriptor)->Ok_0;
    let own = m.classes.len() as int;
    let class = after.classes[own];
    let len = table_len(descriptor.properties)->Some_0;
    lemma_first_end(descriptor.properties, 0);
    match parent_prototype {
        Some(h) => {
            assert(m.object_wf(h as int));
        },
        None => {},
    }
    assert forall|i: int| 0 <= i < class.properties.len() implies (
    #[trigger] class.properties[i]).slot < class.layout.len() by {
        assert(m.resolve_accessor(
            descriptor.properties[i].accessor,
            class.layout.len() as int,
        ) is Some);
    }
    assert forall|i: int, j: int| 0 <= i < j < class.properties.len() implies (
    #[trigger] class.properties[i]).name != (#[trigger] class.properties[j]).name by {
        assert(descriptor.properties[i].name != descriptor.properties[j].name);
    }
    match descriptor.methods {
        Some(entries) => {
            lemma_first_method_end(entries, 0);
            let count = first_method_end(entries, 0)->Some_0;
            assert(class.methods == methods_of(entries, count));
            assert forall|i: int, j: int| 0 <= i < j < class.methods.len() implies (
            #[trigger] class.methods[i]).name != (#[trigger] class.methods[j]).name by {
                assert(entries[i].name != entries[j].name);
            }
        },
        None => {},
    }
    assert(after.class_wf(own));
    assert forall|k: int| 0 <= k < after.classes.len() implies #[trigger] after.class_wf(k) by {
        if k < own {
            assert(m.class_wf(k));
        }
    }
    assert forall|o: int| 0 <= o < after.objects.len() implies #[trigger] after.object_wf(o) by {
        if o < m.objects.len() {
            assert(m.object_wf(o));
            match m.objects[o] {
                ObjectModel::Instance(k, record) => {
                    let layout = m.classes[k as int].layout;
                    assert forall|i: int| 0 <= i < record.len() implies fits(
                        after.classes,
                        #[trigger] record[i],
                        layout[i],
                    ) by {
                        lemma_fits_frame(m.classes, after.classes, record[i], layout[i]);
                    }
                },
                ObjectModel::Prototype(_) => {},
            }
        }
    }
}

/// `later` has every class of `earlier` as it was, and every object of
/// `earlier` with the class it had.
pub open spec fn extends(earlier: RuntimeModel, later: RuntimeModel) -> bool {
    &&& earlier.classes.len() <= later.classes.len()
    &&& forall|k: int|
        0 <= k < earlier.classes.len() ==> #[trigger] later.classes[k] == earlier.classes[k]
    &&& earlier.objects.len() <= later.objects.len()
    &&& forall|o: int|
        0 <= o < earlier.objects.len() ==> match #[trigger] earlier.objects[o] {
            ObjectModel::Prototype(k) => later.objects[o] == ObjectModel::Prototype(k),
            ObjectModel::Instance(k, _) => later.objects[o] matches ObjectModel::Instance(c, _)
                && c == k,
        }
}

/// Whatever is done to a runtime, its classes keep their parents and its
/// objects their classes.
pub proof fn lemma_operations_extend(
    m: RuntimeModel,
    o: usize,
    name: Seq<char>,
    v: ValueModel,
    args: Seq<ValueModel>,
    parent_prototype: Option<usize>,
    descriptor: ClassDescriptorModel,
    slot: usize,
    setter: bool,
)
    requires
        m.wf(),
    ensures
        m.set(o, name, v) matches Ok(after) ==> extends(m, after),
        m.get(o, name) matches Ok(read) ==> extends(m, read.0),
        m.construct(o, args) matches Ok(made) ==> extends(m, made.0),
        m.register_class(parent_prototype, descriptor) matches Ok(registered) ==> extends(
            m,
            registered.0,
        ),
        extends(m, m.define_self_hosted(name, slot, setter)),
{
}

/// What an object is an instance of, and what its prototype is, stays as it
/// is whatever is done to the runtime afterwards.
pub proof fn lemma_instance_of_stays(
    earlier: RuntimeModel,
    later: RuntimeModel,
    o: usize,
    prototype: usize,
)
    requires
        earlier.wf(),
        extends(earlier, later),
        o < earlier.objects.len(),
        prototype < earlier.objects.len(),
    ensures
        later.prototype_of(o) == earlier.prototype_of(o),
        later.instance_of(o, prototype) == earlier.instance_of(o, prototype),
{
    assert(earlier.object_wf(o as int));
    assert(earlier.object_wf(prototype as int));
    let k = earlier.class_of(o);
    assert(later.classes[k as int] == earlier.classes[k as int]);
    assert(later.chain_start(o) == earlier.chain_start(o));
    assert(later.constructor_of(prototype) == earlier.constructor_of(prototype));
    match (earlier.chain_start(o), earlier.constructor_of(prototype)) {
        (Some(c), Some(a)) => {
            assert(earlier.class_wf(k as int));
            lemma_derives_frame(earlier, later, c, a);
        },
        _ => {},
    }
    match earlier.chain_start(o) {
        Some(c) => {
            assert(earlier.class_wf(k as int));
            assert(later.classes[c as int] == earlier.classes[c as int]);
        },
        None => {},
    }
}

} // verus!
