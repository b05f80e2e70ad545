//! Native objects behind script objects, and structured clones of script
//! values.
//!
//! A [`runtime::Runtime`] holds classes and the objects made from them. A
//! class is registered from a [`class::ClassDescriptor`]: the fields of its
//! native record, a [`property`] table that says which property reads or
//! writes which field, and a [`method`] table that says which native
//! function of the host runs for which method. [`builder`] derives
//! descriptors from declarations,
//! and [`magicdom`] declares the classes of a small document tree. What each
//! operation does is defined on the mathematical state in [`model`]; what
//! holds of all states is proved in [`laws`] and [`modes`].
//!
//! A [`value::Value`] travels between runtimes as bytes in the format of
//! [`wire`], owned by a buffer of [`sc`] whose scope decides whether it may
//! change threads.

pub mod builder;
pub mod class;
pub mod error;
pub mod laws;
pub mod magicdom;
pub mod method;
pub mod model;
pub mod modes;
pub mod property;
pub mod runtime;
pub mod sc;
pub mod value;
pub mod wire;
