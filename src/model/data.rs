//! Measurement facts: as read from an upload, and as the store keeps them.
use super::date::Date;
use vstd::prelude::*;

verus! {

/// A measurement read from an upload, before its dataset is resolved.
///
/// `dataset` is the CSV column the value came from and `value` the cell's
/// text, which parses as a floating-point number.
#[derive(Debug, Clone, PartialEq, Eq)]
pub struct Parsed {
    pub dataset: String,
    pub start_date: Date,
    pub end_date: Date,
    pub id: i32,
    pub value: String,
}

/// What a `Parsed` holds, in mathematical terms.
pub struct Fact {
    pub dataset: Seq<char>,
    pub start_date: Date,
    pub end_date: Date,
    pub id: i32,
    pub value: Seq<char>,
}

impl View for Parsed {
    type V = Fact;

    open spec fn view(&self) -> Fact {
        Fact {
            dataset: self.dataset@,
            start_date: self.start_date,
            end_date: self.end_date,
            id: self.id,
            value: self.value@,
        }
    }
}

/// The coordinates that identify a fact; the value takes no part.
pub open spec fn identity(f: Fact) -> (Seq<char>, Date, Date, i32) {
    (f.dataset, f.start_date, f.end_date, f.id)
}

/// No two facts of `facts` share their coordinates.
pub open spec fn distinct_identities(facts: Seq<Fact>) -> bool {
    forall|i: int, j: int|
        0 <= i < facts.len() && 0 <= j < facts.len() && i != j ==> identity(#[trigger] facts[i])
            != identity(#[trigger] facts[j])
}

/// Some fact of `facts` has the coordinates of `f`.
pub open spec fn has_identity(facts: Seq<Fact>, f: Fact) -> bool {
    exists|i: int| 0 <= i < facts.len() && identity(#[trigger] facts[i]) == identity(f)
}

/// A measurement ready for the store: its dataset and source are resolved.
#[derive(Debug, Clone, PartialEq, Eq)]
pub struct Creator {
    pub id: i32,
    pub geography_type: i32,
    pub source: i32,
    pub dataset: i32,
    pub start_date: Date,
    pub end_date: Date,
    pub value: String,
}

impl Creator {
    /// Resolves `data` against a dataset id, a source id and a geography type.
    pub fn new(data: &Parsed, dataset: i32, source: i32, geography_type: i32) -> (r: Creator)
        ensures
            r.id == data.id,
            r.start_date == data.start_date,
            r.end_date == data.end_date,
            r.value == data.value,
            r.dataset == dataset,
            r.source == source,
            r.geography_type == geography_type,
    {
        Creator {
            id: data.id,
            start_date: data.start_date,
            end_date: data.end_date,
            value: data.value.clone(),
            dataset,
            source,
            geography_type,
        }
    }
}

} // verus!
