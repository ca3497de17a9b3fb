//! Colour palettes offered for map visualizations.
use vstd::prelude::*;

verus! {

#[derive(Debug, Clone, PartialEq, Eq)]
pub struct ColorPalette {
    pub id: i32,
    pub name: String,
}

} // verus!
