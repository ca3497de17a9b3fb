use climate_risk_map::model::data::Creator;
use climate_risk_map::model::data_source::{DataSource, NewDataSource};
use climate_risk_map::model::dataset::{Dataset, PartialCreator};
use climate_risk_map::model::geo_id::GeoId;
use climate_risk_map::model::upload_metadata::{
    ExistingDatasetColumn, NewDatasetColumn, Source, UploadMetadata,
};
use climate_risk_map::upload::error::UploadError;
use climate_risk_map::upload::parse::parse_csv;
use climate_risk_map::upload::pipeline::{Action, Event, Stage, Upload};
use climate_risk_map::upload::resolve::validate_new_source;

fn census() -> NewDataSource {
    NewDataSource {
        name: "US Census Bureau".to_string(),
        description: "Population estimates".to_string(),
        link: "https://www.census.gov".to_string(),
    }
}

fn fips_metadata(source: Source) -> UploadMetadata {
    UploadMetadata {
        id_column: "fips".to_string(),
        date_column: "year".to_string(),
        geography_type: 1,
        source,
        new_datasets: vec![NewDatasetColumn {
            column: "pop".to_string(),
            dataset: PartialCreator {
                name: "Population Estimate".to_string(),
                units: "people".to_string(),
                description: "residents".to_string(),
            },
        }],
        existing_datasets: vec![ExistingDatasetColumn { column: "gdp".to_string(), id: 7 }],
    }
}

fn dataset(id: i32, name: &str) -> Dataset {
    Dataset {
        id,
        short_name: name.to_lowercase(),
        name: name.to_string(),
        description: String::new(),
        geography_type: 1,
        units: String::new(),
    }
}

const CSV: &[u8] = b"fips,year,pop,gdp\n1001,2020,500,1000\n9999,2020,10,1\n";

fn started(metadata: UploadMetadata, csv: &[u8]) -> (Upload, Action) {
    let facts = parse_csv(csv, &metadata).unwrap();
    Upload::start(metadata, facts)
}

#[test]
fn unregistered_geo_id_is_reported_before_any_write() {
    let (mut upload, first) = started(fips_metadata(Source::New(census())), CSV);
    let mut actions = vec![first];
    match &actions[0] {
        Action::FindDuplicateDatasets(drafts) => {
            assert_eq!(drafts.len(), 1);
            assert_eq!(drafts[0].short_name, "population-estimate");
        }
        other => panic!("unexpected action {:?}", other),
    }
    let next = upload.advance(Event::DuplicateDatasets(vec![]));
    match &next {
        Action::FindInvalidGeoIds(ids) => {
            let mut ids: Vec<i32> = ids.iter().map(|g| g.id).collect();
            ids.sort();
            assert_eq!(ids, vec![1001, 9999]);
        }
        other => panic!("unexpected action {:?}", other),
    }
    actions.push(next);
    let last = upload.advance(Event::InvalidGeoIds(vec![GeoId { id: 9999, geography_type: 1 }]));
    assert_eq!(
        last,
        Action::Abort(UploadError::InvalidGeoIds(vec![GeoId { id: 9999, geography_type: 1 }]))
    );
    actions.push(last);
    assert_eq!(upload.stage, Stage::Failed);
    assert!(!actions.iter().any(|a| matches!(
        a,
        Action::CreateDataset(_) | Action::CreateSource(_) | Action::Insert(_) | Action::Commit(_)
    )));
}

#[test]
fn colliding_dataset_stops_the_upload() {
    let (mut upload, _) = started(fips_metadata(Source::New(census())), CSV);
    let stored = vec![dataset(3, "Population Estimate")];
    let a = upload.advance(Event::DuplicateDatasets(stored.clone()));
    assert_eq!(a, Action::Abort(UploadError::DuplicateDatasets(stored)));
    assert_eq!(upload.stage, Stage::Failed);
    assert!(upload.created.is_empty());
}

fn run_to_store_check(upload: &mut Upload) -> Vec<Creator> {
    assert!(matches!(upload.advance(Event::DuplicateDatasets(vec![])), Action::FindInvalidGeoIds(_)));
    assert_eq!(
        upload.advance(Event::InvalidGeoIds(vec![])),
        Action::FindSourceByName("US Census Bureau".to_string())
    );
    assert_eq!(upload.advance(Event::SourceByName(None)), Action::FetchDataset(7));
    assert_eq!(upload.advance(Event::Dataset(dataset(7, "GDP"))), Action::CreateSource(census()));
    match upload.advance(Event::SourceCreated(42)) {
        Action::CreateDataset(d) => assert_eq!(d.name, "Population Estimate"),
        other => panic!("unexpected action {:?}", other),
    }
    match upload.advance(Event::Dataset(dataset(8, "Population Estimate"))) {
        Action::FindStoredDuplicate(rows) => rows,
        other => panic!("unexpected action {:?}", other),
    }
}

#[test]
fn full_upload_commits_one_row_per_fact() {
    let csv = b"fips,year,pop,gdp\n1001,2020,500,1000\n1003,2020,10,\n";
    let (mut upload, _) = started(fips_metadata(Source::New(census())), csv);
    let rows = run_to_store_check(&mut upload);
    assert_eq!(rows.len(), 3);
    assert!(rows.iter().all(|r| r.source == 42));
    let pop: Vec<&Creator> = rows.iter().filter(|r| r.dataset == 8).collect();
    let gdp: Vec<&Creator> = rows.iter().filter(|r| r.dataset == 7).collect();
    assert_eq!(pop.len(), 2);
    assert_eq!(gdp.len(), 1);
    assert_eq!(gdp[0].id, 1001);
    assert_eq!(gdp[0].value, "1000");
    let insert = upload.advance(Event::StoredDuplicate(None));
    assert_eq!(insert, Action::Insert(rows));
    assert_eq!(upload.advance(Event::Inserted(3)), Action::Commit(3));
    assert_eq!(upload.stage, Stage::Done);
}

#[test]
fn resubmitted_file_fails_on_stored_duplicate() {
    let (mut upload, _) = started(fips_metadata(Source::New(census())), CSV);
    let rows = run_to_store_check(&mut upload);
    let stored = rows[0].clone();
    assert_eq!(
        upload.advance(Event::StoredDuplicate(Some(stored.clone()))),
        Action::Abort(UploadError::DuplicateDataInStore(stored))
    );
}

#[test]
fn short_insert_count_is_internal() {
    let (mut upload, _) = started(fips_metadata(Source::New(census())), CSV);
    run_to_store_check(&mut upload);
    upload.advance(Event::StoredDuplicate(None));
    match upload.advance(Event::Inserted(1)) {
        Action::Abort(e) => assert!(e.is_internal()),
        other => panic!("unexpected action {:?}", other),
    }
}

#[test]
fn existing_source_skips_source_checks() {
    let mut metadata = fips_metadata(Source::ExistingId(5));
    metadata.new_datasets.clear();
    let (mut upload, first) = started(metadata, b"fips,year,gdp\n1001,2020,3\n");
    assert_eq!(first, Action::FindDuplicateDatasets(vec![]));
    upload.advance(Event::DuplicateDatasets(vec![]));
    assert_eq!(upload.advance(Event::InvalidGeoIds(vec![])), Action::FetchDataset(7));
    match upload.advance(Event::Dataset(dataset(7, "GDP"))) {
        Action::FindStoredDuplicate(rows) => {
            assert_eq!(rows.len(), 1);
            assert_eq!(rows[0].source, 5);
            assert_eq!(rows[0].dataset, 7);
        }
        other => panic!("unexpected action {:?}", other),
    }
}

#[test]
fn declared_source_is_validated() {
    let mut bad_link = census();
    bad_link.link = "not a link".to_string();
    let (mut upload, _) = started(fips_metadata(Source::New(bad_link)), CSV);
    upload.advance(Event::DuplicateDatasets(vec![]));
    assert_eq!(
        upload.advance(Event::InvalidGeoIds(vec![])),
        Action::Abort(UploadError::DataSourceLinkInvalid("not a link".to_string()))
    );
    let mut unnamed = census();
    unnamed.name = String::new();
    assert_eq!(validate_new_source(&unnamed, true), Err(UploadError::DataSourceIncomplete));
    assert_eq!(
        validate_new_source(&census(), false),
        Err(UploadError::DataSourceLinkInvalid("https://www.census.gov".to_string()))
    );
    assert_eq!(validate_new_source(&census(), true), Ok(()));
}

#[test]
fn existing_source_name_is_refused() {
    let (mut upload, _) = started(fips_metadata(Source::New(census())), CSV);
    upload.advance(Event::DuplicateDatasets(vec![]));
    upload.advance(Event::InvalidGeoIds(vec![]));
    let stored = DataSource {
        id: 2,
        name: "US Census Bureau".to_string(),
        description: "d".to_string(),
        link: "https://www.census.gov".to_string(),
    };
    assert_eq!(
        upload.advance(Event::SourceByName(Some(stored.clone()))),
        Action::Abort(UploadError::DuplicateDataSource(stored))
    );
}

#[test]
fn store_failures_and_unexpected_answers_are_internal() {
    let (mut upload, _) = started(fips_metadata(Source::New(census())), CSV);
    assert_eq!(
        upload.advance(Event::StoreFailed("connection reset".to_string())),
        Action::Abort(UploadError::Internal("connection reset".to_string()))
    );
    let (mut other, _) = started(fips_metadata(Source::New(census())), CSV);
    match other.advance(Event::Inserted(2)) {
        Action::Abort(e) => assert!(e.is_internal()),
        a => panic!("unexpected action {:?}", a),
    }
    assert!(!UploadError::MissingFile.is_internal());
}
