use climate_risk_map::model::data_source::DataSource;
use climate_risk_map::model::date::Date;
use climate_risk_map::model::map_visualization::{
    date_ranges_by_source, default_date_range, sources_by_id, DateRange, SourceAndDate,
};

fn date(year: i32, month: u32, day: u32) -> Date {
    Date { year, month, day }
}

/// One period per source, as the original fixtures build them.
fn source_and_dates(source_ids: &[i32]) -> Vec<SourceAndDate> {
    source_ids
        .iter()
        .map(|&source| SourceAndDate {
            source,
            start_date: date(2019, source as u32, source as u32),
            end_date: date(2020, source as u32, source as u32),
        })
        .collect()
}

fn data_sources(source_ids: &[i32]) -> Vec<DataSource> {
    source_ids
        .iter()
        .map(|&id| DataSource {
            id,
            name: id.to_string(),
            description: id.to_string(),
            link: id.to_string(),
        })
        .collect()
}

#[test]
fn it_converts_dates_to_range() {
    let source_id = 1;
    let source_and_dates = source_and_dates(&[source_id]);
    let expected_date_range = DateRange::from(source_and_dates.first().unwrap());
    let result = date_ranges_by_source(&source_and_dates);
    assert_eq!(result[&source_id][0], expected_date_range)
}

#[test]
fn default_range_from_both_dates() {
    let result = default_date_range(Some(date(2019, 4, 4)), Some(date(2020, 4, 4)));
    assert_eq!(
        result,
        Some(DateRange { start_date: date(2019, 4, 4), end_date: date(2020, 4, 4) })
    )
}

#[test]
fn no_default_date_carries_through() {
    assert_eq!(default_date_range(None, None), None);
    assert_eq!(default_date_range(Some(date(2019, 4, 4)), None), None);
    assert_eq!(default_date_range(None, Some(date(2020, 4, 4))), None);
}

#[test]
fn no_sources_give_no_periods() {
    assert!(date_ranges_by_source(&source_and_dates(&[])).is_empty());
    assert!(sources_by_id(&data_sources(&[])).is_empty());
}

#[test]
fn periods_are_grouped_by_source_in_order() {
    let mut items = source_and_dates(&[1, 2, 3]);
    items.push(SourceAndDate { source: 1, start_date: date(2021, 1, 1), end_date: date(2021, 12, 31) });
    let result = date_ranges_by_source(&items);
    assert_eq!(result.len(), 3);
    assert_eq!(
        result[&1],
        vec![
            DateRange { start_date: date(2019, 1, 1), end_date: date(2020, 1, 1) },
            DateRange { start_date: date(2021, 1, 1), end_date: date(2021, 12, 31) },
        ]
    );
    assert_eq!(result[&3].len(), 1);
}

#[test]
fn sources_are_keyed_by_id() {
    let result = sources_by_id(&data_sources(&[1, 2, 3]));
    assert_eq!(result.len(), 3);
    assert_eq!(result[&2].name, "2");
}

#[test]
fn new_map_visualization_defaults() {
    let c = climate_risk_map::model::map_visualization::Creator::for_dataset(12);
    assert_eq!((c.dataset, c.map_type, c.color_palette, c.scale_type, c.formatter_type), (12, 1, 1, 2, 3));
}
