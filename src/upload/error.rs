//! The closed set of ways an upload fails.
use crate::model::data::{Creator, Parsed};
use crate::model::data_source::DataSource;
use crate::model::dataset::Dataset;
use crate::model::geo_id::GeoId;
use vstd::prelude::*;

verus! {

/// Why an upload was refused; each case carries what the editor needs to fix
/// the input.
#[derive(Debug, Clone, PartialEq, Eq)]
pub enum UploadError {
    /// The file is not well-formed delimited text, or a row's field count
    /// differs from the header's.
    InvalidCsv(String),
    /// A column the metadata names is absent from a row; `record` pairs the
    /// header with that row's fields.
    MissingColumn { column: String, row: usize, record: Vec<(String, String)> },
    GeoIdNotNumeric { geo_id: String, row: usize },
    InvalidYear { year: String, row: usize },
    /// Every referenced identifier the registry lacks.
    InvalidGeoIds(Vec<GeoId>),
    /// A second fact with the coordinates of an earlier one in the file.
    DuplicateDataInCsv { row: usize, parsed_data: Parsed },
    /// A fact whose coordinates the store already holds.
    DuplicateDataInStore(Creator),
    /// Every stored dataset whose name or short name a declared one repeats.
    DuplicateDatasets(Vec<Dataset>),
    DuplicateDataSource(DataSource),
    DataSourceIncomplete,
    DataSourceLinkInvalid(String),
    MissingMetadata,
    InvalidMetadata(String),
    MissingFile,
    Internal(String),
}

impl UploadError {
    /// Whether the failure lies with the server rather than with the input.
    pub fn is_internal(&self) -> (r: bool)
        ensures
            r == (self is Internal),
    {
        match self {
            UploadError::Internal(_) => true,
            _ => false,
        }
    }
}

} // verus!
