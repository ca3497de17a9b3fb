//! States of the registry.
use vstd::prelude::*;

verus! {

#[derive(Debug, Clone, PartialEq, Eq)]
pub struct State {
    pub id: i32,
    pub name: String,
}

} // verus!
