//! Method tables.
//!
//! A method table lists the native functions that the instances of a class
//! offer as methods. A native function is the host's; the table names it by
//! the number that the host gave it. Like a property table, a method table
//! is closed by an all-zero end marker.

use vstd::prelude::*;
use vstd::string::*;
use crate::error::RegistrationError;

verus! {

/// One entry of a method table.
#[derive(Debug, PartialEq, Eq)]
pub struct MethodSpec {
    pub name: String,
    /// The number of arguments that the method expects.
    pub nargs: usize,
    /// The native function behind the method. `None` in the end entry.
    pub native: Option<usize>,
}

/// What a [`MethodSpec`] denotes.
pub struct MethodSpecModel {
    pub name: Seq<char>,
    pub nargs: usize,
    pub native: Option<usize>,
}

impl MethodSpecModel {
    /// The entry that closes a table.
    pub open spec fn end() -> MethodSpecModel {
        MethodSpecModel { name: Seq::empty(), nargs: 0, native: None }
    }

    /// The all-zero entry that closes a table.
    pub open spec fn is_end(self) -> bool {
        self.name.len() == 0 && self.nargs == 0 && self.native is None
    }

    /// An entry that describes a method: it has a name and a native function.
    pub open spec fn is_entry(self) -> bool {
        self.name.len() > 0 && self.native is Some
    }
}

impl View for MethodSpec {
    type V = MethodSpecModel;

    open spec fn view(&self) -> MethodSpecModel {
        MethodSpecModel { name: self.name@, nargs: self.nargs, native: self.native }
    }
}

/// A method of a registered class.
#[derive(Debug, PartialEq, Eq)]
pub struct Method {
    pub name: String,
    pub nargs: usize,
    pub native: usize,
}

/// What a [`Method`] denotes.
pub struct MethodModel {
    pub name: Seq<char>,
    pub nargs: usize,
    pub native: usize,
}

impl View for Method {
    type V = MethodModel;

    open spec fn view(&self) -> MethodModel {
        MethodModel { name: self.name@, nargs: self.nargs, native: self.native }
    }
}

impl Method {
    /// A copy of this method.
    pub fn duplicate(&self) -> (copy: Method)
        ensures
            copy@ == self@,
    {
        Method { name: self.name.clone(), nargs: self.nargs, native: self.native }
    }
}

impl MethodSpec {
    /// The method `name`, which takes `nargs` arguments and runs the native
    /// function `native`.
    pub fn function(name: &str, native: usize, nargs: usize) -> (spec: MethodSpec)
        ensures
            spec@ == (MethodSpecModel { name: name@, nargs, native: Some(native) }),
    {
        MethodSpec { name: name.to_owned(), nargs, native: Some(native) }
    }

    /// The entry that closes a table.
    pub fn end_spec() -> (spec: MethodSpec)
        ensures
            spec@ == MethodSpecModel::end(),
            spec@.is_end(),
    {
        MethodSpec { name: String::new(), nargs: 0, native: None }
    }

    /// Whether this is the entry that closes a table.
    pub fn is_end(&self) -> (end: bool)
        ensures
            end == self@.is_end(),
    {
        self.name.as_str().is_empty() && self.nargs == 0 && self.native.is_none()
    }

    /// Whether this entry describes a method.
    pub fn is_entry(&self) -> (entry: bool)
        ensures
            entry == self@.is_entry(),
    {
        !self.name.as_str().is_empty() && self.native.is_some()
    }

    /// A copy of this entry.
    pub fn duplicate(&self) -> (copy: MethodSpec)
        ensures
            copy@ == self@,
    {
        MethodSpec { name: self.name.clone(), nargs: self.nargs, native: self.native }
    }
}

/// What a method table denotes, entry by entry.
pub open spec fn method_table_view(specs: Seq<MethodSpec>) -> Seq<MethodSpecModel> {
    Seq::new(specs.len(), |i: int| specs[i]@)
}

/// What an optional method table denotes.
pub open spec fn optional_table_view(specs: Option<Vec<MethodSpec>>) -> Option<
    Seq<MethodSpecModel>,
> {
    match specs {
        Some(table) => Some(method_table_view(table@)),
        None => None,
    }
}

/// What a sequence of methods denotes.
pub open spec fn method_models(methods: Seq<Method>) -> Seq<MethodModel> {
    Seq::new(methods.len(), |i: int| methods[i]@)
}

/// The position of the first end entry at or behind `from`.
pub open spec fn first_method_end(table: Seq<MethodSpecModel>, from: int) -> Option<int>
    decreases table.len() - from,
{
    if from < 0 || from >= table.len() {
        None
    } else if table[from].is_end() {
        Some(from)
    } else {
        first_method_end(table, from + 1)
    }
}

/// Each of the first `len` entries describes a method.
pub open spec fn methods_well_formed(table: Seq<MethodSpecModel>, len: int) -> bool {
    forall|i: int| 0 <= i < len ==> (#[trigger] table[i]).is_entry()
}

/// No two of the first `len` entries have the same name.
pub open spec fn method_names_distinct(table: Seq<MethodSpecModel>, len: int) -> bool {
    forall|i: int, j: int|
        0 <= i < j < len ==> (#[trigger] table[i]).name != (#[trigger] table[j]).name
}

/// The methods that the first `len` entries describe.
pub open spec fn methods_of(table: Seq<MethodSpecModel>, len: int) -> Seq<MethodModel> {
    Seq::new(
        len as nat,
        |i: int|
            MethodModel {
                name: table[i].name,
                nargs: table[i].nargs,
                native: table[i].native->Some_0,
            },
    )
}

/// The methods that a class gets from its optional method table: none
/// without a table, else those before the end entry; or why the table is
/// rejected.
pub open spec fn checked_methods(table: Option<Seq<MethodSpecModel>>) -> Result<
    Seq<MethodModel>,
    RegistrationError,
> {
    match table {
        None => Ok(Seq::empty()),
        Some(entries) => match first_method_end(entries, 0) {
            None => Err(RegistrationError::MissingSentinel),
            Some(len) => if !methods_well_formed(entries, len) {
                Err(RegistrationError::MalformedEntry)
            } else if !method_names_distinct(entries, len) {
                Err(RegistrationError::DuplicateMethod)
            } else {
                Ok(methods_of(entries, len))
            },
        },
    }
}

/// Where `first_method_end` finds an end entry, it is the first one.
pub proof fn lemma_first_method_end(table: Seq<MethodSpecModel>, from: int)
    requires
        0 <= from,
    ensures
        match first_method_end(table, from) {
            Some(end) => from <= end < table.len() && table[end].is_end() && forall|i: int|
                from <= i < end ==> !(#[trigger] table[i]).is_end(),
            None => forall|i: int| from <= i < table.len() ==> !(#[trigger] table[i]).is_end(),
        },
    decreases table.len() - from,
{
    if from < table.len() && !table[from].is_end() {
        lemma_first_method_end(table, from + 1);
    }
}

/// Reads an optional method table as a class registration does.
#[verifier::loop_isolation(false)]
pub fn check_methods(specs: &Option<Vec<MethodSpec>>) -> (r: Result<Vec<Method>, RegistrationError>)
    ensures
        match checked_methods(optional_table_view(*specs)) {
            Ok(methods) => r matches Ok(read) && method_models(read@) == methods,
            Err(e) => r matches Err(given) && given == e,
        },
{
    let table = match specs {
        None => {
            let none: Vec<Method> = Vec::new();
            assert(method_models(none@) =~= Seq::empty());
            return Ok(none);
        },
        Some(table) => table,
    };
    let ghost entries = method_table_view(table@);
    let mut len: usize = 0;
    while len < table.len() && !table[len].is_end()
        invariant
            entries == method_table_view(table@),
            len <= table.len(),
            first_method_end(entries, 0) == first_method_end(entries, len as int),
        decreases table.len() - len,
    {
        len += 1;
    }
    if len >= table.len() {
        return Err(RegistrationError::MissingSentinel);
    }
    assert(first_method_end(entries, 0) == Some(len as int));
    let mut methods: Vec<Method> = Vec::new();
    let mut i: usize = 0;
    while i < len
        invariant
            entries == method_table_view(table@),
            i <= len < table.len(),
            methods@.len() == i,
            methods_well_formed(entries, i as int),
            forall|j: int|
                0 <= j < i ==> (#[trigger] methods@[j])@ == methods_of(entries, len as int)[j],
        decreases len - i,
    {
        match table[i].native {
            Some(native) => {
                if table[i].name.as_str().is_empty() {
                    assert(!entries[i as int].is_entry());
                    return Err(RegistrationError::MalformedEntry);
                }
                methods.push(Method { name: table[i].name.clone(), nargs: table[i].nargs, native });
            },
            None => {
                assert(!entries[i as int].is_entry());
                return Err(RegistrationError::MalformedEntry);
            },
        }
        i += 1;
    }
    let mut j: usize = 0;
    while j < len
        invariant
            entries == method_table_view(table@),
            j <= len < table.len(),
            method_names_distinct(entries, j as int),
        decreases len - j,
    {
        let mut i: usize = 0;
        while i < j
            invariant
                entries == method_table_view(table@),
                i <= j < len < table.len(),
                forall|k: int|
                    0 <= k < i ==> (#[trigger] entries[k]).name != entries[j as int].name,
            decreases j - i,
        {
            if table[i].name == table[j].name {
                assert(entries[i as int].name == entries[j as int].name);
                return Err(RegistrationError::DuplicateMethod);
            }
            i += 1;
        }
        j += 1;
    }
    assert(method_models(methods@) =~= methods_of(entries, len as int));
    Ok(methods)
}

} // verus!
