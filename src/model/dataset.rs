//! Datasets: named series of measurements sharing units and a description.
use vstd::prelude::*;

verus! {

#[derive(Debug, Clone, PartialEq, Eq)]
pub struct Dataset {
    pub id: i32,
    pub short_name: String,
    pub name: String,
    pub description: String,
    pub geography_type: i32,
    pub units: String,
}

/// A partial update of a dataset; absent fields stay as they are.
#[derive(Debug, Clone, PartialEq, Eq)]
pub struct Diff {
    pub id: i32,
    pub short_name: Option<String>,
    pub name: Option<String>,
    pub description: Option<String>,
    pub geography_type: Option<i32>,
    pub units: Option<String>,
}

/// A dataset ready to be created: a draft completed with its short name and
/// geography type.
#[derive(Debug, Clone, PartialEq, Eq)]
pub struct Creator {
    pub name: String,
    pub short_name: String,
    pub units: String,
    pub geography_type: i32,
    pub description: String,
}

/// A dataset as an upload declares it.
#[derive(Debug, Clone, PartialEq, Eq)]
pub struct PartialCreator {
    pub name: String,
    pub units: String,
    pub description: String,
}

/// The URL-friendly form of a name.
pub uninterp spec fn slug_of(name: Seq<char>) -> Seq<char>;

/// Relies on `str_slug::slug`: its result depends on the text alone, and an
/// empty text gives an empty slug.
#[verifier::external_body]
fn slugify(name: &str) -> (r: String)
    ensures
        r@ == slug_of(name@),
        name@.len() == 0 ==> r@.len() == 0,
{
    str_slug::slug(name)
}

impl Creator {
    /// Completes a draft: the short name is the slug of the name.
    pub fn from(dataset: &PartialCreator, geography_type: i32) -> (r: Creator)
        ensures
            r.name@ == dataset.name@,
            r.short_name@ == slug_of(dataset.name@),
            r.units@ == dataset.units@,
            r.description@ == dataset.description@,
            r.geography_type == geography_type,
    {
        Creator {
            short_name: slugify(dataset.name.as_str()),
            name: dataset.name.clone(),
            units: dataset.units.clone(),
            description: dataset.description.clone(),
            geography_type,
        }
    }
}

} // verus!
