//! Queries on map visualizations.
use vstd::prelude::*;

verus! {

/// Filters on the list of map visualizations.
#[derive(Debug, Clone, Copy, PartialEq, Eq)]
pub struct MapVisualizationOptions {
    pub include_drafts: Option<bool>,
    pub geography_type: Option<i32>,
}

} // verus!
