//! Geographic identifiers, as kept in the canonical registry.
use vstd::prelude::*;

verus! {

/// One registry entry: identifiers are unique within a geography type.
#[derive(Debug, Clone, Copy, PartialEq, Eq, Hash)]
pub struct GeoId {
    pub id: i32,
    pub geography_type: i32,
}

#[derive(Debug, Clone, PartialEq, Eq)]
pub struct State {
    pub id: i32,
    pub name: String,
}

#[derive(Debug, Clone, PartialEq, Eq)]
pub struct County {
    pub id: i32,
    pub name: String,
}

} // verus!
