use climate_risk_map::model::data::Parsed;
use climate_risk_map::model::data_source::NewDataSource;
use climate_risk_map::model::dataset::PartialCreator;
use climate_risk_map::model::date::Date;
use climate_risk_map::model::upload_metadata::{
    ExistingDatasetColumn, NewDatasetColumn, Source, UploadMetadata,
};
use climate_risk_map::upload::error::UploadError;
use climate_risk_map::upload::parse::{parse_csv, parse_records};
use std::collections::{HashMap, HashSet};

fn metadata() -> UploadMetadata {
    UploadMetadata {
        source: Source::New(NewDataSource {
            name: "name".to_string(),
            link: "https://example.com".to_string(),
            description: "description".to_string(),
        }),
        new_datasets: vec![NewDatasetColumn {
            column: "value1".to_string(),
            dataset: PartialCreator {
                description: "dataset description".to_string(),
                name: "dataset name".to_string(),
                units: "units".to_string(),
            },
        }],
        existing_datasets: vec![ExistingDatasetColumn { column: "value2".to_string(), id: 1 }],
        id_column: "id".to_string(),
        date_column: "date".to_string(),
        geography_type: 1,
    }
}

fn record_map(record: &[(String, String)]) -> HashMap<String, String> {
    record.iter().cloned().collect()
}

fn pairs(items: &[(&str, &str)]) -> HashMap<String, String> {
    items.iter().map(|(k, v)| (k.to_string(), v.to_string())).collect()
}

fn year_range(year: i32) -> (Date, Date) {
    (Date { year, month: 1, day: 1 }, Date { year, month: 12, day: 31 })
}

/// The coordinates of each fact, with its value read as a number.
fn summary(facts: &[Parsed]) -> Vec<(String, Date, Date, i32, f64)> {
    let mut v: Vec<(String, Date, Date, i32, f64)> = facts
        .iter()
        .map(|p| {
            (p.dataset.clone(), p.start_date, p.end_date, p.id, p.value.parse::<f64>().unwrap())
        })
        .collect();
    v.sort_by(|a, b| (&a.0, a.1.year, a.3).cmp(&(&b.0, b.1.year, b.3)));
    v
}

#[test]
fn it_reports_missing_data_column() {
    let metadata = metadata();
    let result = parse_csv(b"id,date,value1\n1,2020,11\n", &metadata);
    match result {
        Err(UploadError::MissingColumn { column, row, record }) => {
            assert_eq!(column, "value2");
            assert_eq!(row, 0);
            assert_eq!(
                record_map(&record),
                pairs(&[("id", "1"), ("date", "2020"), ("value1", "11")])
            );
        }
        other => panic!("unexpected result {:?}", other),
    }
}

#[test]
fn it_reports_missing_id_column() {
    let metadata = metadata();
    let result = parse_csv(b"date,value1,value2\n2020,11,21\n", &metadata);
    match result {
        Err(UploadError::MissingColumn { column, row, record }) => {
            assert_eq!(column, "id");
            assert_eq!(row, 0);
            assert_eq!(
                record_map(&record),
                pairs(&[("date", "2020"), ("value1", "11"), ("value2", "21")])
            );
        }
        other => panic!("unexpected result {:?}", other),
    }
}

#[test]
fn it_reports_missing_date_column() {
    let metadata = metadata();
    let result = parse_csv(b"id,value1,value2\n1,11,21\n", &metadata);
    match result {
        Err(UploadError::MissingColumn { column, row, record }) => {
            assert_eq!(column, "date");
            assert_eq!(row, 0);
            assert_eq!(
                record_map(&record),
                pairs(&[("id", "1"), ("value1", "11"), ("value2", "21")])
            );
        }
        other => panic!("unexpected result {:?}", other),
    }
}

#[test]
fn error_on_wrong_row_length() {
    let metadata = metadata();
    let result = parse_csv(b"id,date,value1,value2\n1,2020,11,21\n2,2020,12\n", &metadata);
    assert!(matches!(result, Err(UploadError::InvalidCsv(_))));
}

#[test]
fn test_valid_csv() {
    let metadata = metadata();
    let csv = b"id,date,value1,value2\n1,2020,11,21\n3,2020,13,23\n5,2022,,25\n7,2022,17.7,\n";
    let received = parse_csv(csv, &metadata).unwrap();
    let (s20, e20) = year_range(2020);
    let (s22, e22) = year_range(2022);
    let mut expected = vec![
        ("value1".to_string(), s20, e20, 1, 11.0),
        ("value1".to_string(), s20, e20, 3, 13.0),
        ("value2".to_string(), s20, e20, 1, 21.0),
        ("value2".to_string(), s20, e20, 3, 23.0),
        ("value2".to_string(), s22, e22, 5, 25.0),
        ("value1".to_string(), s22, e22, 7, 17.7),
    ];
    expected.sort_by(|a, b| (&a.0, a.1.year, a.3).cmp(&(&b.0, b.1.year, b.3)));
    let received = summary(&received);
    assert_eq!(
        expected, received,
        "\nexpected: {expected:#?}\nreceived: {received:#?}\n",
    );
}

#[test]
fn facts_count_distinct_coordinates() {
    let metadata = metadata();
    let csv = b"id,date,value1,value2\n1,2020,1,2\n1,2021,3,\n2,2020,x,4\n";
    let facts = parse_csv(csv, &metadata).unwrap();
    assert_eq!(facts.len(), 4);
    let ids: HashSet<(String, i32, i32)> =
        facts.iter().map(|p| (p.dataset.clone(), p.start_date.year, p.id)).collect();
    assert_eq!(ids.len(), facts.len());
}

#[test]
fn repeated_coordinates_cite_the_later_row() {
    let metadata = metadata();
    let csv = b"id,date,value1,value2\n1,2020,11,21\n2,2020,12,22\n1,2020,99,98\n";
    match parse_csv(csv, &metadata) {
        Err(UploadError::DuplicateDataInCsv { row, parsed_data }) => {
            assert_eq!(row, 2);
            assert_eq!(parsed_data.dataset, "value1");
            assert_eq!(parsed_data.id, 1);
            assert_eq!(parsed_data.value, "99");
            assert_eq!(parsed_data.start_date, Date { year: 2020, month: 1, day: 1 });
        }
        other => panic!("unexpected result {:?}", other),
    }
}

#[test]
fn absent_column_reported_at_first_row() {
    let mut metadata = metadata();
    metadata.existing_datasets.push(ExistingDatasetColumn { column: "gdp".to_string(), id: 7 });
    let csv = b"id,date,value1,value2\n1,2020,11,21\n2,2020,12,22\n";
    match parse_csv(csv, &metadata) {
        Err(UploadError::MissingColumn { column, row, .. }) => {
            assert_eq!(column, "gdp");
            assert_eq!(row, 0);
        }
        other => panic!("unexpected result {:?}", other),
    }
}

#[test]
fn non_numeric_geo_id_is_reported() {
    let csv = b"id,date,value1,value2\n1,2020,11,21\nx7,2020,12,22\n";
    match parse_csv(csv, &metadata()) {
        Err(UploadError::GeoIdNotNumeric { geo_id, row }) => {
            assert_eq!(geo_id, "x7");
            assert_eq!(row, 1);
        }
        other => panic!("unexpected result {:?}", other),
    }
}

#[test]
fn invalid_years_are_reported() {
    for year in ["abc", "300000", "-262144", ""] {
        let csv = format!("id,date,value1,value2\n1,{year},11,21\n");
        match parse_csv(csv.as_bytes(), &metadata()) {
            Err(UploadError::InvalidYear { year: y, row }) => {
                assert_eq!(y, year);
                assert_eq!(row, 0);
            }
            other => panic!("unexpected result {:?}", other),
        }
    }
}

#[test]
fn column_mapped_twice_is_invalid_metadata() {
    let mut metadata = metadata();
    metadata.existing_datasets.push(ExistingDatasetColumn { column: "value1".to_string(), id: 3 });
    let result = parse_csv(b"id,date,value1,value2\n1,2020,11,21\n", &metadata);
    assert!(matches!(result, Err(UploadError::InvalidMetadata(_))));
}

#[test]
fn empty_file_and_header_only_give_no_facts() {
    assert_eq!(parse_csv(b"", &metadata()).unwrap().len(), 0);
    assert_eq!(parse_csv(b"id,date,value1,value2\n", &metadata()).unwrap().len(), 0);
}

#[test]
fn records_are_parsed_with_repeated_header_names_taking_the_last() {
    let records = vec![
        vec!["id".to_string(), "date".to_string(), "value1".to_string(), "value2".to_string(), "id".to_string()],
        vec!["1".to_string(), "2020".to_string(), "5".to_string(), "6".to_string(), "9".to_string()],
    ];
    let facts = parse_records(&records, &metadata()).unwrap();
    assert_eq!(facts.len(), 2);
    assert!(facts.iter().all(|p| p.id == 9));
}
