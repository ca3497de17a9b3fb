//! Scales (linear, logarithmic) a map legend can use.
use vstd::prelude::*;

verus! {

#[derive(Debug, Clone, PartialEq, Eq)]
pub struct Type {
    pub id: i32,
    pub name: String,
}

} // verus!
