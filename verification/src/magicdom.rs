//! The classes of a small document tree, and a geometry quad.

pub mod attr;
pub mod dompoint;
pub mod domquad;
pub mod element;
pub mod htmlelement;
pub mod node;
