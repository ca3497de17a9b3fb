//! Checks and joins that run between parsing and the insert: the referenced
//! geographic identifiers, a declared data source, and the mapping of facts
//! to resolved datasets.
use super::error::UploadError;
use crate::model::data::{Creator, Parsed};
use crate::model::data_source::NewDataSource;
use crate::model::geo_id::GeoId;
use crate::model::upload_metadata::UploadMetadata;
use std::collections::HashSet;
use vstd::prelude::*;

verus! {

broadcast use vstd::std_specs::hash::group_hash_axioms;

/// The identifiers that `facts` reference.
pub open spec fn fact_ids(facts: Seq<Parsed>) -> Set<i32> {
    facts.map_values(|f: Parsed| f.id).to_set()
}

/// The identifiers `facts` reference, each once, under `geography_type`.
pub fn referenced_geo_ids(facts: &Vec<Parsed>, geography_type: i32) -> (r: Vec<GeoId>)
    ensures
        r@.map_values(|g: GeoId| g.id).no_duplicates(),
        r@.map_values(|g: GeoId| g.id).to_set() == fact_ids(facts@),
        forall|k: int| 0 <= k < r.len() ==> (#[trigger] r@[k]).geography_type == geography_type,
{
    let mut seen: HashSet<i32> = HashSet::new();
    let mut r: Vec<GeoId> = Vec::new();
    let mut i: usize = 0;
    while i < facts.len()
        invariant
            i <= facts.len(),
            r@.map_values(|g: GeoId| g.id).no_duplicates(),
            seen@ == r@.map_values(|g: GeoId| g.id).to_set(),
            seen@ == facts@.subrange(0, i as int).map_values(|f: Parsed| f.id).to_set(),
            forall|k: int| 0 <= k < r.len() ==> (#[trigger] r@[k]).geography_type == geography_type,
        decreases facts.len() - i,
    {
        let id = facts[i].id;
        let ghost ids_before = r@.map_values(|g: GeoId| g.id);
        let ghost prefix = facts@.subrange(0, i as int).map_values(|f: Parsed| f.id);
        let ghost prefix2 = facts@.subrange(0, i + 1).map_values(|f: Parsed| f.id);
        assert(prefix2 =~= prefix + seq![id]);
        proof {
            Seq::<i32>::lemma_to_set_insert_commutes(prefix, id);
            Seq::<i32>::lemma_to_set_insert_commutes(ids_before, id);
        }
        if seen.insert(id) {
            r.push(GeoId { id, geography_type });
            proof {
                assert(r@.map_values(|g: GeoId| g.id) =~= ids_before + seq![id]);
                assert(ids_before + seq![id] =~= ids_before.push(id));
                assert(!ids_before.contains(id));
                assert forall|a: int, b: int|
                    0 <= a < b < ids_before.len() + 1 implies ids_before.push(id)[a] != ids_before.push(
                        id,
                    )[b] by {
                    if b == ids_before.len() {
                        assert(ids_before.push(id)[a] == ids_before[a]);
                    }
                }
            }
        } else {
            assert(seen@.insert(id) == seen@);
        }
        i = i + 1;
    }
    assert(facts@.subrange(0, i as int) =~= facts@);
    r
}

/// A text that `FromStr` for `Uri` accepts.
pub uninterp spec fn is_uri(s: Seq<char>) -> bool;

/// Relies on `FromStr` for `actix_web::http::Uri` (the `http` crate's
/// `Uri`): whether a text parses depends on the text alone, and the empty
/// text is refused.
#[verifier::external_body]
pub(crate) fn parses_as_uri(s: &str) -> (r: bool)
    ensures
        r == is_uri(s@),
        s@.len() == 0 ==> !r,
{
    s.parse::<actix_web::http::Uri>().is_ok()
}

/// Checks a declared data source, given whether its link parses as a URI: a
/// bad link is reported first, then a missing name or description.
pub fn validate_new_source(source: &NewDataSource, link_is_uri: bool) -> (r: Result<
    (),
    UploadError,
>)
    ensures
        !link_is_uri ==> (r matches Err(UploadError::DataSourceLinkInvalid(l)) && l@ == source.link@),
        link_is_uri && (source.name@.len() == 0 || source.description@.len() == 0) ==> r matches Err(
            UploadError::DataSourceIncomplete,
        ),
        link_is_uri && source.name@.len() > 0 && source.description@.len() > 0 ==> r is Ok,
{
    if !link_is_uri {
        return Err(UploadError::DataSourceLinkInvalid(source.link.clone()));
    }
    if source.name.as_str().is_empty() || source.description.as_str().is_empty() {
        return Err(UploadError::DataSourceIncomplete);
    }
    Ok(())
}

/// A copy of `row`.
pub(crate) fn copy_row(row: &Creator) -> (r: Creator)
    ensures
        r == *row,
{
    Creator {
        id: row.id,
        geography_type: row.geography_type,
        source: row.source,
        dataset: row.dataset,
        start_date: row.start_date,
        end_date: row.end_date,
        value: row.value.clone(),
    }
}

/// A copy of `rows`.
pub(crate) fn copy_rows(rows: &Vec<Creator>) -> (r: Vec<Creator>)
    ensures
        r@ == rows@,
{
    let mut r: Vec<Creator> = Vec::new();
    let mut i: usize = 0;
    while i < rows.len()
        invariant
            i <= rows.len(),
            r@ == rows@.subrange(0, i as int),
        decreases rows.len() - i,
    {
        r.push(copy_row(&rows[i]));
        i = i + 1;
        assert(r@ =~= rows@.subrange(0, i as int));
    }
    assert(rows@.subrange(0, i as int) =~= rows@);
    r
}


/// A dataset's id and geography type, once the store has it.
#[derive(Debug, Clone, Copy, PartialEq, Eq)]
pub struct ResolvedDataset {
    pub id: i32,
    pub geography_type: i32,
}

/// The dataset column `column` resolves to: the columns of declared datasets
/// to `created`, in order, and those of existing datasets to `existing`.
pub open spec fn resolution(
    metadata: UploadMetadata,
    created: Seq<ResolvedDataset>,
    existing: Seq<ResolvedDataset>,
    column: Seq<char>,
) -> Option<ResolvedDataset> {
    let columns = metadata.data_columns();
    if columns.contains(column) {
        let j = columns.index_of(column);
        if j < metadata.new_datasets.len() {
            Some(created[j])
        } else {
            Some(existing[j - metadata.new_datasets.len()])
        }
    } else {
        None
    }
}

/// The stored form of `fact` under dataset `dataset` and source `source`.
pub open spec fn resolved_row(fact: Parsed, dataset: ResolvedDataset, source: i32) -> Creator {
    Creator {
        id: fact.id,
        geography_type: dataset.geography_type,
        source,
        dataset: dataset.id,
        start_date: fact.start_date,
        end_date: fact.end_date,
        value: fact.value,
    }
}

/// Each fact in stored form, where every fact's column resolves.
pub open spec fn materialization(
    facts: Seq<Parsed>,
    metadata: UploadMetadata,
    created: Seq<ResolvedDataset>,
    existing: Seq<ResolvedDataset>,
    source: i32,
) -> Option<Seq<Creator>> {
    if forall|i: int|
        0 <= i < facts.len() ==> resolution(metadata, created, existing, (#[trigger] facts[i]).dataset@) is Some {
        Some(
            Seq::new(
                facts.len(),
                |i: int|
                    resolved_row(
                        facts[i],
                        resolution(metadata, created, existing, facts[i].dataset@)->Some_0,
                        source,
                    ),
            ),
        )
    } else {
        None
    }
}

/// Joins facts to their resolved datasets and the source.
pub fn materialize(
    facts: &Vec<Parsed>,
    metadata: &UploadMetadata,
    created: &Vec<ResolvedDataset>,
    existing: &Vec<ResolvedDataset>,
    source: i32,
) -> (r: Option<Vec<Creator>>)
    requires
        metadata.columns_distinct(),
        created.len() == metadata.new_datasets.len(),
        existing.len() == metadata.existing_datasets.len(),
    ensures
        match materialization(facts@, *metadata, created@, existing@, source) {
            Some(rows) => r matches Some(v) && v@ == rows,
            None => r is None,
        },
{
    let columns = metadata.data_column_names();
    let ghost cols = metadata.data_columns();
    let n_new = created.len();
    let mut rows: Vec<Creator> = Vec::new();
    let mut i: usize = 0;
    while i < facts.len()
        invariant
            i <= facts.len(),
            columns@.map_values(|s: String| s@) == cols,
            cols == metadata.data_columns(),
            cols.no_duplicates(),
            n_new == metadata.new_datasets.len(),
            created.len() == n_new,
            existing.len() == metadata.existing_datasets.len(),
            rows.len() == i,
            forall|k: int|
                0 <= k < i ==> resolution(*metadata, created@, existing@, (#[trigger] facts@[k]).dataset@) is Some,
            forall|k: int|
                0 <= k < i ==> #[trigger] rows@[k] == resolved_row(
                    facts@[k],
                    resolution(*metadata, created@, existing@, facts@[k].dataset@)->Some_0,
                    source,
                ),
        decreases facts.len() - i,
    {
        let fact = &facts[i];
        let mut j: usize = 0;
        while j < columns.len() && columns[j] != fact.dataset
            invariant
                j <= columns.len(),
                columns@.map_values(|s: String| s@) == cols,
                forall|m: int| 0 <= m < j ==> cols[m] != fact.dataset@,
            decreases columns.len() - j,
        {
            j = j + 1;
        }
        if j == columns.len() {
            proof {
                assert(!cols.contains(fact.dataset@));
            }
            return None;
        }
        proof {
            assert(cols[j as int] == fact.dataset@);
            assert(cols.contains(fact.dataset@));
            let x = cols.index_of(fact.dataset@);
            assert(cols[x] == cols[j as int]);
        }
        let dataset = if j < n_new {
            created[j]
        } else {
            existing[j - n_new]
        };
        rows.push(Creator::new(fact, dataset.id, source, dataset.geography_type));
        i = i + 1;
    }
    proof {
        let m = materialization(facts@, *metadata, created@, existing@, source);
        assert(m is Some);
        assert(rows@ =~= m->Some_0);
    }
    Some(rows)
}

} // verus!
