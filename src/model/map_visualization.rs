//! How a map visualization presents its dates and sources: the periods each
//! source has data for, and the default period.
use super::data_source::DataSource;
use super::date::Date;
use std::collections::HashMap;
use vstd::prelude::*;

verus! {

broadcast use vstd::std_specs::hash::group_hash_axioms;

/// A map visualization as it is first created: the later fields get their
/// values from the editor.
#[derive(Debug, Clone, Copy, PartialEq, Eq)]
pub struct Creator {
    pub dataset: i32,
    pub map_type: i32,
    pub color_palette: i32,
    pub scale_type: i32,
    pub formatter_type: i32,
}

impl Creator {
    /// A new map visualization of `dataset`: the first map type and palette,
    /// the second scale type and the third formatter.
    pub fn for_dataset(dataset: i32) -> (r: Creator)
        ensures
            r == (Creator { dataset, map_type: 1, color_palette: 1, scale_type: 2, formatter_type: 3 }),
    {
        Creator { dataset, map_type: 1, color_palette: 1, scale_type: 2, formatter_type: 3 }
    }
}

/// A period that a source has data for.
#[derive(Debug, Clone, Copy, PartialEq, Eq)]
pub struct SourceAndDate {
    pub source: i32,
    pub start_date: Date,
    pub end_date: Date,
}

#[derive(Debug, Clone, Copy, PartialEq, Eq)]
pub struct DateRange {
    pub start_date: Date,
    pub end_date: Date,
}

impl DateRange {
    /// The period of `source_and_date`.
    pub fn from(source_and_date: &SourceAndDate) -> (r: DateRange)
        ensures
            r == range_of(*source_and_date),
    {
        DateRange { start_date: source_and_date.start_date, end_date: source_and_date.end_date }
    }
}

pub open spec fn range_of(s: SourceAndDate) -> DateRange {
    DateRange { start_date: s.start_date, end_date: s.end_date }
}

/// The periods of `items` that belong to `source`, in order.
pub open spec fn ranges_of(items: Seq<SourceAndDate>, source: i32) -> Seq<DateRange>
    decreases items.len(),
{
    if items.len() == 0 {
        Seq::empty()
    } else if items.last().source == source {
        ranges_of(items.drop_last(), source).push(range_of(items.last()))
    } else {
        ranges_of(items.drop_last(), source)
    }
}

/// The periods of each source, in the order given.
pub fn date_ranges_by_source(source_and_dates: &Vec<SourceAndDate>) -> (r: HashMap<
    i32,
    Vec<DateRange>,
>)
    ensures
        r@.dom() == source_and_dates@.map_values(|s: SourceAndDate| s.source).to_set(),
        forall|source: i32| #[trigger]
            r@.contains_key(source) ==> r@[source]@ == ranges_of(source_and_dates@, source),
{
    let mut r: HashMap<i32, Vec<DateRange>> = HashMap::new();
    let mut i: usize = 0;
    while i < source_and_dates.len()
        invariant
            i <= source_and_dates.len(),
            r@.dom() == source_and_dates@.subrange(0, i as int).map_values(
                |s: SourceAndDate| s.source,
            ).to_set(),
            forall|source: i32| #[trigger]
                r@.contains_key(source) ==> r@[source]@ == ranges_of(
                    source_and_dates@.subrange(0, i as int),
                    source,
                ),
        decreases source_and_dates.len() - i,
    {
        let item = source_and_dates[i];
        let range = DateRange::from(&item);
        let ghost before = source_and_dates@.subrange(0, i as int);
        let ghost after = source_and_dates@.subrange(0, i + 1);
        assert(after.drop_last() =~= before);
        assert(after.map_values(|s: SourceAndDate| s.source) =~= before.map_values(
            |s: SourceAndDate| s.source,
        ) + seq![item.source]);
        proof {
            Seq::<i32>::lemma_to_set_insert_commutes(
                before.map_values(|s: SourceAndDate| s.source),
                item.source,
            );
            lemma_ranges_of_absent(before, item.source);
        }
        let ranges = match r.remove(&item.source) {
            Some(mut ranges) => {
                ranges.push(range);
                ranges
            },
            None => {
                let mut ranges: Vec<DateRange> = Vec::new();
                ranges.push(range);
                ranges
            },
        };
        r.insert(item.source, ranges);
        i = i + 1;
    }
    assert(source_and_dates@.subrange(0, i as int) =~= source_and_dates@);
    r
}

/// A source that no item names has no periods.
proof fn lemma_ranges_of_absent(items: Seq<SourceAndDate>, source: i32)
    ensures
        !items.map_values(|s: SourceAndDate| s.source).to_set().contains(source) ==> ranges_of(
            items,
            source,
        ) == Seq::<DateRange>::empty(),
    decreases items.len(),
{
    if items.len() > 0 {
        let ids = items.map_values(|s: SourceAndDate| s.source);
        assert(items.drop_last().map_values(|s: SourceAndDate| s.source) =~= ids.drop_last());
        if !ids.to_set().contains(source) {
            assert(ids[ids.len() - 1] == items.last().source);
            assert forall|k: int| 0 <= k < ids.drop_last().len() implies ids.drop_last()[k]
                != source by {
                assert(ids.drop_last()[k] == ids[k]);
                assert(ids.contains(ids[k]));
            }
            assert(!ids.drop_last().to_set().contains(source)) by {
                if ids.drop_last().to_set().contains(source) {
                    assert(ids.drop_last().contains(source));
                }
            }
            assert(ids.contains(items.last().source));
        }
        lemma_ranges_of_absent(items.drop_last(), source);
    }
}

/// The default period: both default dates, where both are set.
pub fn default_date_range(start_date: Option<Date>, end_date: Option<Date>) -> (r: Option<
    DateRange,
>)
    ensures
        r == match (start_date, end_date) {
            (Some(start_date), Some(end_date)) => Some(DateRange { start_date, end_date }),
            _ => None,
        },
{
    match (start_date, end_date) {
        (Some(start_date), Some(end_date)) => Some(DateRange { start_date, end_date }),
        _ => None,
    }
}

/// A copy of `d`.
fn copy_source(d: &DataSource) -> (r: DataSource)
    ensures
        r == *d,
{
    DataSource {
        id: d.id,
        name: d.name.clone(),
        description: d.description.clone(),
        link: d.link.clone(),
    }
}

/// No later source of `sources` than position `j` has the id of source `j`.
pub open spec fn last_with_id(sources: Seq<DataSource>, j: int) -> bool {
    forall|k: int| j < k < sources.len() ==> (#[trigger] sources[k]).id != sources[j].id
}

/// The sources keyed by id; of sources sharing an id, the last one is kept.
pub fn sources_by_id(sources: &Vec<DataSource>) -> (r: HashMap<i32, DataSource>)
    ensures
        r@.dom() == sources@.map_values(|s: DataSource| s.id).to_set(),
        forall|j: int|
            0 <= j < sources.len() && last_with_id(sources@, j) ==> r@[(#[trigger] sources@[j]).id]
                == sources@[j],
{
    let mut r: HashMap<i32, DataSource> = HashMap::new();
    let mut i: usize = 0;
    while i < sources.len()
        invariant
            i <= sources.len(),
            r@.dom() == sources@.subrange(0, i as int).map_values(|s: DataSource| s.id).to_set(),
            forall|j: int|
                0 <= j < i && (forall|k: int| j < k < i ==> (#[trigger] sources@[k]).id
                    != sources@[j].id) ==> r@[(#[trigger] sources@[j]).id] == sources@[j],
        decreases sources.len() - i,
    {
        let s = copy_source(&sources[i]);
        let ghost before = sources@.subrange(0, i as int).map_values(|s: DataSource| s.id);
        assert(sources@.subrange(0, i + 1).map_values(|s: DataSource| s.id) =~= before + seq![s.id]);
        proof {
            Seq::<i32>::lemma_to_set_insert_commutes(before, s.id);
        }
        r.insert(s.id, s);
        i = i + 1;
    }
    assert(sources@.subrange(0, i as int) =~= sources@);
    r
}

} // verus!
