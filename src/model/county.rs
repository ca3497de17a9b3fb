//! Counties of the registry.
use vstd::prelude::*;

verus! {

#[derive(Debug, Clone, PartialEq, Eq)]
pub struct County {
    pub id: i32,
    pub name: String,
}

} // verus!
