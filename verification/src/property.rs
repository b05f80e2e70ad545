//! Property descriptor tables.
//!
//! A table is a sequence of entries closed by an all-zero end marker; what
//! follows the first end marker is never read.

use vstd::prelude::*;
use vstd::string::*;

verus! {

/// The property shows up when an object's properties are enumerated.
pub const JSPROP_ENUMERATE: u8 = 0x01;

/// The property cannot be assigned to.
pub const JSPROP_READONLY: u8 = 0x02;

/// The property cannot be deleted.
pub const JSPROP_PERMANENT: u8 = 0x04;

/// Which kind of accessor the property tables of the binding layer are
/// built with: one choice for all of them.
#[derive(Clone, Copy, Debug, PartialEq, Eq)]
pub enum AccessorMode {
    /// Native getters and setters.
    Native,
    /// Self-hosted functions of the runtime, found by name.
    SelfHosted,
}

/// How a property reaches the native record behind an object.
#[derive(Debug, PartialEq, Eq)]
pub enum Accessor {
    /// No accessor: the mark of the end entry.
    Absent,
    /// A native getter that reads the given slot.
    NativeGetter(usize),
    /// A native getter and setter for the given slot.
    NativeGetterSetter(usize),
    /// The name of a self-hosted getter.
    SelfHostedGetter(String),
    /// The names of a self-hosted getter and setter.
    SelfHostedGetterSetter(String, String),
}

/// What an [`Accessor`] denotes.
pub enum AccessorModel {
    Absent,
    NativeGetter(usize),
    NativeGetterSetter(usize),
    SelfHostedGetter(Seq<char>),
    SelfHostedGetterSetter(Seq<char>, Seq<char>),
}

impl View for Accessor {
    type V = AccessorModel;

    open spec fn view(&self) -> AccessorModel {
        match self {
            Accessor::Absent => AccessorModel::Absent,
            Accessor::NativeGetter(slot) => AccessorModel::NativeGetter(*slot),
            Accessor::NativeGetterSetter(slot) => AccessorModel::NativeGetterSetter(*slot),
            Accessor::SelfHostedGetter(getter) => AccessorModel::SelfHostedGetter(getter@),
            Accessor::SelfHostedGetterSetter(getter, setter) => {
                AccessorModel::SelfHostedGetterSetter(getter@, setter@)
            },
        }
    }
}

/// One entry of a property table.
#[derive(Debug, PartialEq, Eq)]
pub struct PropertySpec {
    pub name: String,
    pub flags: u8,
    pub accessor: Accessor,
}

/// What a [`PropertySpec`] denotes.
pub struct PropertySpecModel {
    pub name: Seq<char>,
    pub flags: u8,
    pub accessor: AccessorModel,
}

impl PropertySpecModel {
    /// The entry that closes a table.
    pub open spec fn end() -> PropertySpecModel {
        PropertySpecModel { name: Seq::empty(), flags: 0, accessor: AccessorModel::Absent }
    }

    /// The all-zero entry that closes a table.
    pub open spec fn is_end(self) -> bool {
        self.name.len() == 0 && self.flags == 0 && self.accessor is Absent
    }

    /// An entry that describes a property: it has a name and an accessor.
    pub open spec fn is_entry(self) -> bool {
        self.name.len() > 0 && !(self.accessor is Absent)
    }
}

impl View for PropertySpec {
    type V = PropertySpecModel;

    open spec fn view(&self) -> PropertySpecModel {
        PropertySpecModel { name: self.name@, flags: self.flags, accessor: self.accessor@ }
    }
}

impl PropertySpec {
    /// A read-only property backed by a native getter for `slot`.
    pub fn getter(name: &str, flags: u8, slot: usize) -> (spec: PropertySpec)
        ensures
            spec@ == (PropertySpecModel {
                name: name@,
                flags,
                accessor: AccessorModel::NativeGetter(slot),
            }),
    {
        PropertySpec { name: name.to_owned(), flags, accessor: Accessor::NativeGetter(slot) }
    }

    /// A writable property backed by a native getter and setter for `slot`.
    pub fn getter_setter(name: &str, flags: u8, slot: usize) -> (spec: PropertySpec)
        ensures
            spec@ == (PropertySpecModel {
                name: name@,
                flags,
                accessor: AccessorModel::NativeGetterSetter(slot),
            }),
    {
        PropertySpec { name: name.to_owned(), flags, accessor: Accessor::NativeGetterSetter(slot) }
    }

    /// A read-only property backed by the self-hosted function `getter`.
    pub fn getter_selfhosted(name: &str, flags: u8, getter: &str) -> (spec: PropertySpec)
        ensures
            spec@ == (PropertySpecModel {
                name: name@,
                flags,
                accessor: AccessorModel::SelfHostedGetter(getter@),
            }),
    {
        PropertySpec {
            name: name.to_owned(),
            flags,
            accessor: Accessor::SelfHostedGetter(getter.to_owned()),
        }
    }

    /// A writable property backed by the self-hosted functions `getter` and
    /// `setter`.
    pub fn getter_setter_selfhosted(name: &str, flags: u8, getter: &str, setter: &str) -> (spec:
        PropertySpec)
        ensures
            spec@ == (PropertySpecModel {
                name: name@,
                flags,
                accessor: AccessorModel::SelfHostedGetterSetter(getter@, setter@),
            }),
    {
        PropertySpec {
            name: name.to_owned(),
            flags,
            accessor: Accessor::SelfHostedGetterSetter(getter.to_owned(), setter.to_owned()),
        }
    }

    /// The entry that closes a table.
    pub fn end_spec() -> (spec: PropertySpec)
        ensures
            spec@ == PropertySpecModel::end(),
            spec@.is_end(),
    {
        PropertySpec { name: String::new(), flags: 0, accessor: Accessor::Absent }
    }

    /// Whether this is the entry that closes a table.
    pub fn is_end(&self) -> (end: bool)
        ensures
            end == self@.is_end(),
    {
        let absent = match &self.accessor {
            Accessor::Absent => true,
            _ => false,
        };
        self.name.as_str().is_empty() && self.flags == 0 && absent
    }

    /// Whether this entry describes a property.
    pub fn is_entry(&self) -> (entry: bool)
        ensures
            entry == self@.is_entry(),
    {
        let absent = match &self.accessor {
            Accessor::Absent => true,
            _ => false,
        };
        !self.name.as_str().is_empty() && !absent
    }
}

/// What a table denotes, entry by entry.
pub open spec fn table_view(specs: Seq<PropertySpec>) -> Seq<PropertySpecModel> {
    Seq::new(specs.len(), |i: int| specs[i]@)
}

/// The position of the first end entry at or behind `from`.
pub open spec fn first_end(table: Seq<PropertySpecModel>, from: int) -> Option<int>
    decreases table.len() - from,
{
    if from < 0 || from >= table.len() {
        None
    } else if table[from].is_end() {
        Some(from)
    } else {
        first_end(table, from + 1)
    }
}

/// The number of entries that a reader of the table sees: those before the
/// first end entry. `None` where the table has no end entry.
pub open spec fn table_len(table: Seq<PropertySpecModel>) -> Option<int> {
    first_end(table, 0)
}

/// Each of the first `len` entries describes a property.
pub open spec fn entries_well_formed(table: Seq<PropertySpecModel>, len: int) -> bool {
    forall|i: int| 0 <= i < len ==> (#[trigger] table[i]).is_entry()
}

/// No two of the first `len` entries have the same name.
pub open spec fn names_distinct(table: Seq<PropertySpecModel>, len: int) -> bool {
    forall|i: int, j: int|
        0 <= i < j < len ==> (#[trigger] table[i]).name != (#[trigger] table[j]).name
}

/// Where `first_end` finds an end entry, it is the first one.
pub proof fn lemma_first_end(table: Seq<PropertySpecModel>, from: int)
    requires
        0 <= from,
    ensures
        match first_end(table, from) {
            Some(end) => from <= end < table.len() && table[end].is_end() && forall|i: int|
                from <= i < end ==> !(#[trigger] table[i]).is_end(),
            None => forall|i: int| from <= i < table.len() ==> !(#[trigger] table[i]).is_end(),
        },
    decreases table.len() - from,
{
    if from < table.len() && !table[from].is_end() {
        lemma_first_end(table, from + 1);
    }
}

/// Finds the end entry of a table.
pub fn find_end(specs: &Vec<PropertySpec>) -> (end: Option<usize>)
    ensures
        match end {
            Some(n) => table_len(table_view(specs@)) == Some(n as int),
            None => table_len(table_view(specs@)) is None,
        },
{
    let ghost table = table_view(specs@);
    let mut i: usize = 0;
    while i < specs.len()
        invariant
            table == table_view(specs@),
            i <= specs.len(),
            first_end(table, 0) == first_end(table, i as int),
        decreases specs.len() - i,
    {
        if specs[i].is_end() {
            return Some(i);
        }
        i += 1;
    }
    None
}

/// Checks that each of the first `len` entries describes a property.
pub(crate) fn check_entries(specs: &Vec<PropertySpec>, len: usize) -> (ok: bool)
    requires
        len <= specs@.len(),
    ensures
        ok == entries_well_formed(table_view(specs@), len as int),
{
    let ghost table = table_view(specs@);
    let mut i: usize = 0;
    while i < len
        invariant
            table == table_view(specs@),
            i <= len <= specs@.len(),
            entries_well_formed(table, i as int),
        decreases len - i,
    {
        if !specs[i].is_entry() {
            assert(!table[i as int].is_entry());
            return false;
        }
        i += 1;
    }
    true
}

/// Checks that no two of the first `len` entries have the same name.
pub(crate) fn check_names(specs: &Vec<PropertySpec>, len: usize) -> (ok: bool)
    requires
        len <= specs@.len(),
    ensures
        ok == names_distinct(table_view(specs@), len as int),
{
    let ghost table = table_view(specs@);
    let mut j: usize = 0;
    while j < len
        invariant
            table == table_view(specs@),
            j <= len <= specs@.len(),
            names_distinct(table, j as int),
        decreases len - j,
    {
        let mut i: usize = 0;
        while i < j
            invariant
                table == table_view(specs@),
                i <= j < len <= specs@.len(),
                forall|k: int| 0 <= k < i ==> (#[trigger] table[k]).name != table[j as int].name,
            decreases j - i,
        {
            if specs[i].name == specs[j].name {
                assert(table[i as int].name == table[j as int].name);
                return false;
            }
            i += 1;
        }
        j += 1;
    }
    true
}

} // verus!
