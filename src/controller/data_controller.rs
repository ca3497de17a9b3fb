//! Queries on measurement data.
use vstd::prelude::*;

verus! {

/// Which percentile ranks to compute: a category, the identifier ranked, and
/// its geography type.
#[derive(Debug, Clone, Copy, PartialEq, Eq)]
pub struct PercentileInfo {
    pub category: i32,
    pub geo_id: i32,
    pub geography_type: i32,
}

} // verus!
