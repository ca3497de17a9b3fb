//! Data sources: where a set of measurements comes from.
use vstd::prelude::*;

verus! {

#[derive(Debug, Clone, PartialEq, Eq)]
pub struct DataSource {
    pub id: i32,
    pub name: String,
    pub description: String,
    pub link: String,
}

/// A partial update of a data source; absent fields stay as they are.
#[derive(Debug, Clone, PartialEq, Eq)]
pub struct DataSourceDiff {
    pub id: i32,
    pub name: Option<String>,
    pub description: Option<String>,
    pub link: Option<String>,
}

/// A data source that an upload declares and the store has not seen yet.
#[derive(Debug, Clone, PartialEq, Eq)]
pub struct NewDataSource {
    pub name: String,
    pub description: String,
    pub link: String,
}

} // verus!
