//! Placement of map visualizations inside categories.
use super::data_category::{next_order, next_order_spec};
use vstd::prelude::*;

verus! {

#[derive(Debug, Clone, PartialEq, Eq)]
pub struct Collection {
    pub order: i16,
    pub category: i32,
    pub map_visualization: i32,
}

/// The key of a placement.
#[derive(Debug, Clone, PartialEq, Eq)]
pub struct Id {
    pub category: i32,
    pub map_visualization: i32,
}

/// The placement to store for `id`, after `last_order`, the last position
/// taken in its category.
pub fn collection_to_create(id: &Id, last_order: Option<i16>) -> (r: Option<Collection>)
    ensures
        match next_order_spec(last_order) {
            Some(order) => r == Some(
                Collection { order, category: id.category, map_visualization: id.map_visualization },
            ),
            None => r is None,
        },
{
    match next_order(last_order) {
        Some(order) => Some(
            Collection { order, category: id.category, map_visualization: id.map_visualization },
        ),
        None => None,
    }
}

} // verus!
