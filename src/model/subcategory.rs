//! Subcategories under a data category.
use vstd::prelude::*;

verus! {

#[derive(Debug, Clone, PartialEq, Eq)]
pub struct Subcategory {
    pub name: String,
    pub id: i32,
}

} // verus!
