//! Class descriptors and the typed fields of native records.

use vstd::prelude::*;
use crate::method::{optional_table_view, MethodSpec, MethodSpecModel};
use crate::property::{table_view, PropertySpec, PropertySpecModel};

verus! {

/// A class as a field's type names it.
#[derive(Clone, Copy, Debug, PartialEq, Eq)]
pub enum ClassRef {
    /// The class that declares the field.
    Itself,
    /// The registered class with this prototype.
    Prototype(usize),
}

/// The type of a field, as a descriptor declares it.
#[derive(Clone, Copy, Debug, PartialEq, Eq)]
pub enum FieldKind {
    Int,
    Bool,
    Text,
    /// An object of a class. The field holds the object's record; a script
    /// passes a reference to an object and reads a reference to a new one.
    Object(ClassRef),
    /// An ordered sequence of objects of a class.
    ObjectList(ClassRef),
}

/// The type of a slot of a native record: a field's type with its class
/// resolved to the class's index in the runtime.
#[derive(Clone, Copy, Debug, PartialEq, Eq)]
pub enum SlotKind {
    Int,
    Bool,
    Text,
    Object(usize),
    ObjectList(usize),
}

/// What a class is registered from: its name, the fields that its
/// constructor fills behind those of its parent, in the order of the
/// constructor's arguments, its table of properties, and its table of
/// methods if it has one.
#[derive(Debug, PartialEq, Eq)]
pub struct ClassDescriptor {
    pub class_name: String,
    pub fields: Vec<FieldKind>,
    pub properties: Vec<PropertySpec>,
    pub methods: Option<Vec<MethodSpec>>,
}

/// What a [`ClassDescriptor`] denotes.
pub struct ClassDescriptorModel {
    pub class_name: Seq<char>,
    pub fields: Seq<FieldKind>,
    pub properties: Seq<PropertySpecModel>,
    pub methods: Option<Seq<MethodSpecModel>>,
}

impl View for ClassDescriptor {
    type V = ClassDescriptorModel;

    open spec fn view(&self) -> ClassDescriptorModel {
        ClassDescriptorModel {
            class_name: self.class_name@,
            fields: self.fields@,
            properties: table_view(self.properties@),
            methods: optional_table_view(self.methods),
        }
    }
}

/// The value of one field of a native record. A field that refers to an
/// object holds that object's record by value: nothing is shared between
/// records.
#[derive(Debug, PartialEq, Eq)]
pub enum FieldValue {
    Int(i32),
    Bool(bool),
    Text(String),
    /// The record of an object.
    Object(Vec<FieldValue>),
    /// An ordered sequence of objects, each an `Object` field.
    ObjectList(Vec<FieldValue>),
}

/// What a [`FieldValue`] denotes.
pub enum FieldModel {
    Int(i32),
    Bool(bool),
    Text(Seq<char>),
    Object(Seq<FieldModel>),
    ObjectList(Seq<FieldModel>),
}

impl View for FieldValue {
    type V = FieldModel;

    open spec fn view(&self) -> FieldModel
        decreases self,
    {
        match self {
            FieldValue::Int(n) => FieldModel::Int(*n),
            FieldValue::Bool(b) => FieldModel::Bool(*b),
            FieldValue::Text(s) => FieldModel::Text(s@),
            FieldValue::Object(record) => FieldModel::Object(
                Seq::new(
                    record@.len(),
                    |i: int|
                        if 0 <= i < record@.len() {
                            record@[i].view()
                        } else {
                            FieldModel::Bool(false)
                        },
                ),
            ),
            FieldValue::ObjectList(items) => FieldModel::ObjectList(
                Seq::new(
                    items@.len(),
                    |i: int|
                        if 0 <= i < items@.len() {
                            items@[i].view()
                        } else {
                            FieldModel::Bool(false)
                        },
                ),
            ),
        }
    }
}

/// What a sequence of fields denotes, field by field.
pub open spec fn field_models(fields: Seq<FieldValue>) -> Seq<FieldModel> {
    Seq::new(fields.len(), |i: int| fields[i]@)
}

/// A record, and a sequence of objects, denote what their fields denote.
pub proof fn lemma_fields_view(fields: Vec<FieldValue>)
    ensures
        FieldValue::Object(fields)@ == FieldModel::Object(field_models(fields@)),
        FieldValue::ObjectList(fields)@ == FieldModel::ObjectList(field_models(fields@)),
{
    reveal_with_fuel(<FieldValue as View>::view, 2);
    assert(FieldValue::Object(fields)@->Object_0 =~= field_models(fields@));
    assert(FieldValue::ObjectList(fields)@->ObjectList_0 =~= field_models(fields@));
}

/// A copy of the first `count` fields of `record`, or of all of them where
/// it has fewer.
pub fn duplicate_fields(record: &Vec<FieldValue>, count: usize) -> (copy: Vec<FieldValue>)
    ensures
        field_models(copy@) == field_models(record@).take(
            if count <= record@.len() {
                count as int
            } else {
                record@.len() as int
            },
        ),
    decreases record, 1nat,
{
    let count = if count <= record.len() {
        count
    } else {
        record.len()
    };
    let mut copy: Vec<FieldValue> = Vec::new();
    let mut i: usize = 0;
    while i < count
        invariant
            i <= count <= record@.len(),
            copy@.len() == i,
            forall|j: int| 0 <= j < i ==> copy@[j]@ == record@[j]@,
        decreases count - i,
    {
        proof {
            assert(decreases_to!(*record => record[i as int]));
        }
        copy.push(record[i].duplicate());
        i += 1;
    }
    assert(field_models(copy@) =~= field_models(record@).take(count as int));
    copy
}

impl FieldValue {
    /// A copy of this field that denotes the same.
    pub fn duplicate(&self) -> (copy: FieldValue)
        ensures
            copy@ == self@,
        decreases self, 0nat,
    {
        match self {
            FieldValue::Int(n) => FieldValue::Int(*n),
            FieldValue::Bool(b) => FieldValue::Bool(*b),
            FieldValue::Text(s) => FieldValue::Text(s.clone()),
            FieldValue::Object(record) => {
                let copy = duplicate_fields(record, record.len());
                proof {
                    lemma_fields_view(copy);
                    lemma_fields_view(*record);
                    assert(field_models(record@).take(record@.len() as int) =~= field_models(
                        record@,
                    ));
                }
                FieldValue::Object(copy)
            },
            FieldValue::ObjectList(items) => {
                let copy = duplicate_fields(items, items.len());
                proof {
                    lemma_fields_view(copy);
                    lemma_fields_view(*items);
                    assert(field_models(items@).take(items@.len() as int) =~= field_models(
                        items@,
                    ));
                }
                FieldValue::ObjectList(copy)
            },
        }
    }
}

} // verus!
