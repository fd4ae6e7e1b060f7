//! Wire-shape descriptors for types, and a worst-case encoded size computed from them.
use vstd::prelude::*;

pub mod impls;
pub mod laws;
pub mod max_size;
pub mod schema;
pub mod wire;

use crate::schema::NamedType;

verus! {

/// A type that describes the shape of its wire encoding.
pub trait Schema {
    /// The descriptor of this type.
    spec fn spec_schema() -> NamedType;

    /// A hand-supplied size bound that takes precedence over the computed one.
    spec fn spec_manual_max_size() -> Option<usize>;

    /// Builds the descriptor of this type.
    fn schema() -> (r: NamedType)
        ensures
            r == Self::spec_schema(),
    ;

    /// The hand-supplied size bound, if this type has one.
    fn manual_max_size() -> (r: Option<usize>)
        ensures
            r == Self::spec_manual_max_size(),
    ;
}

} // verus!
