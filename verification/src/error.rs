//! The errors of the binding layer.

use vstd::prelude::*;

verus! {

/// Why a class could not be registered.
#[derive(Clone, Copy, Debug, PartialEq, Eq)]
pub enum RegistrationError {
    /// The parent handle is not the prototype of a registered class.
    BadParent,
    /// The property table, or the method table, has no end entry.
    MissingSentinel,
    /// An entry before the end entry lacks a name, or its accessor or native
    /// function.
    MalformedEntry,
    /// Two entries of the property table have the same name.
    DuplicateProperty,
    /// Two entries of the method table have the same name.
    DuplicateMethod,
    /// A field refers to a class that is not registered.
    UnknownClass,
    /// An accessor names a slot outside the record, or a self-hosted
    /// function that the runtime does not have.
    UnresolvedAccessor,
}

/// Why a constructor call failed.
#[derive(Clone, Copy, Debug, PartialEq, Eq)]
pub enum ConstructionError {
    /// The handle is not the prototype of a registered class.
    NotAConstructor,
    /// The call has the wrong number of arguments.
    ArgumentCount { expected: usize, found: usize },
    /// The argument at `index` is the first that does not convert to the
    /// type of its field.
    TypeConversion { index: usize },
}

/// Why a property could not be read or written.
#[derive(Clone, Copy, Debug, PartialEq, Eq)]
pub enum PropertyAccessError {
    /// The handle names no object.
    NoSuchObject,
    /// Neither the object's class nor one of its ancestors has the property.
    NoSuchProperty,
    /// The object has no native record: it was not made by a constructor.
    Unbound,
    /// The property has no setter.
    Immutable,
    /// The value does not convert to the type of the field.
    TypeConversion,
}

} // verus!
