//! Kinds of geography (county, state, country) that scope identifiers.
use vstd::prelude::*;

verus! {

#[derive(Debug, Clone, PartialEq, Eq)]
pub struct Type {
    pub id: i32,
    pub name: String,
}

} // verus!
