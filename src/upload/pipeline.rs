//! The upload as a sequence of store requests: each answer from the store
//! moves the upload to its next request, to the final commit, or to a
//! failure. Whoever holds the store performs the requests, inside one
//! transaction that it commits on `Commit` and rolls back on `Abort`.
use super::error::UploadError;
use super::resolve::{
    copy_rows, materialization, materialize, parses_as_uri, referenced_geo_ids, is_uri, fact_ids,
    validate_new_source, ResolvedDataset,
};
use crate::model::data::{Creator, Parsed};
use crate::model::data_source::{DataSource, NewDataSource};
use crate::model::dataset::{self, slug_of, Dataset, PartialCreator};
use crate::model::geo_id::GeoId;
use crate::model::upload_metadata::{Source, UploadMetadata};
use vstd::prelude::*;

verus! {

/// What the upload waits for.
#[derive(Debug, Clone, Copy, PartialEq, Eq)]
pub enum Stage {
    /// The stored datasets that declared ones would repeat.
    CheckingDatasets,
    /// The referenced identifiers the registry lacks.
    CheckingGeoIds,
    /// A stored data source with the declared one's name.
    CheckingSource,
    /// The next existing dataset.
    FetchingDatasets,
    /// The id of the created data source.
    CreatingSource,
    /// The next created dataset.
    CreatingDatasets,
    /// A stored fact with the coordinates of one of the rows.
    CheckingStore,
    /// The number of rows inserted.
    Inserting,
    Done,
    Failed,
}

/// A request to the store, or the end of the upload.
#[derive(Debug, Clone, PartialEq, Eq)]
pub enum Action {
    FindDuplicateDatasets(Vec<dataset::Creator>),
    FindInvalidGeoIds(Vec<GeoId>),
    FindSourceByName(String),
    FetchDataset(i32),
    CreateSource(NewDataSource),
    CreateDataset(dataset::Creator),
    FindStoredDuplicate(Vec<Creator>),
    Insert(Vec<Creator>),
    /// Commit the transaction: this many rows were inserted.
    Commit(u64),
    /// Roll the transaction back and report the error.
    Abort(UploadError),
}

/// The store's answer to the last request.
#[derive(Debug, Clone, PartialEq, Eq)]
pub enum Event {
    DuplicateDatasets(Vec<Dataset>),
    InvalidGeoIds(Vec<GeoId>),
    SourceByName(Option<DataSource>),
    /// A fetched or created dataset.
    Dataset(Dataset),
    SourceCreated(i32),
    StoredDuplicate(Option<Creator>),
    Inserted(u64),
    /// The request failed in the store.
    StoreFailed(String),
}

/// One upload in progress.
pub struct Upload {
    pub metadata: UploadMetadata,
    pub facts: Vec<Parsed>,
    /// The declared datasets, completed, in the order of the metadata.
    pub drafts: Vec<dataset::Creator>,
    pub stage: Stage,
    /// The existing datasets fetched so far, in the order of the metadata.
    pub existing: Vec<ResolvedDataset>,
    /// The declared datasets created so far, in the order of the metadata.
    pub created: Vec<ResolvedDataset>,
    pub source_id: i32,
    /// The facts in stored form, once every dataset is resolved.
    pub rows: Vec<Creator>,
}

/// `d` is the draft `p` completed under geography type `g`.
pub open spec fn drafted(d: dataset::Creator, p: PartialCreator, g: i32) -> bool {
    &&& d.name@ == p.name@
    &&& d.short_name@ == slug_of(p.name@)
    &&& d.units@ == p.units@
    &&& d.description@ == p.description@
    &&& d.geography_type == g
}

/// The request lists each identifier the facts reference exactly once,
/// under the upload's geography type.
pub open spec fn lists_referenced_ids(ids: Seq<GeoId>, facts: Seq<Parsed>, geography_type: i32) -> bool {
    &&& ids.map_values(|g: GeoId| g.id).no_duplicates()
    &&& ids.map_values(|g: GeoId| g.id).to_set() == fact_ids(facts)
    &&& forall|k: int| 0 <= k < ids.len() ==> (#[trigger] ids[k]).geography_type == geography_type
}

/// The resolved form of a dataset the store returned.
pub open spec fn resolved(d: Dataset) -> ResolvedDataset {
    ResolvedDataset { id: d.id, geography_type: d.geography_type }
}

/// A request that changes the store, or the commit.
pub open spec fn writes(a: Action) -> bool {
    ||| a is CreateSource
    ||| a is CreateDataset
    ||| a is Insert
    ||| a is Commit
}

impl Upload {
    pub open spec fn wf(self) -> bool {
        &&& self.wf_base()
        &&& self.wf_stage()
    }

    /// What holds at every stage.
    pub open spec fn wf_base(self) -> bool {
        &&& self.metadata.columns_distinct()
        &&& self.drafts.len() == self.metadata.new_datasets.len()
        &&& forall|k: int|
            0 <= k < self.drafts.len() ==> drafted(
                #[trigger] self.drafts@[k],
                self.metadata.new_datasets@[k].dataset,
                self.metadata.geography_type,
            )
        &&& self.existing.len() <= self.metadata.existing_datasets.len()
        &&& self.created.len() <= self.metadata.new_datasets.len()
    }

    /// What the stage adds.
    pub open spec fn wf_stage(self) -> bool {
        &&& (self.stage is FetchingDatasets ==> self.existing.len()
            < self.metadata.existing_datasets.len())
        &&& (self.stage is CreatingSource || self.stage is CreatingDatasets || self.stage is CheckingStore
            || self.stage is Inserting || self.stage is Done) ==> self.existing.len()
            == self.metadata.existing_datasets.len()
        &&& (self.stage is CreatingSource ==> self.metadata.source is New)
        &&& (self.stage is CreatingDatasets ==> self.created.len() < self.metadata.new_datasets.len())
        &&& (self.stage is CheckingStore || self.stage is Inserting || self.stage is Done) ==> {
            &&& self.created.len() == self.metadata.new_datasets.len()
            &&& materialization(
                self.facts@,
                self.metadata,
                self.created@,
                self.existing@,
                self.source_id,
            ) == Some(self.rows@)
        }
        &&& (self.stage is CheckingDatasets || self.stage is CheckingGeoIds || self.stage is CheckingSource
            || self.stage is FetchingDatasets || self.stage is CreatingSource) ==> self.created.len()
            == 0
        &&& (self.stage is CheckingDatasets || self.stage is CheckingGeoIds || self.stage is CheckingSource)
            ==> self.existing.len() == 0
    }

    /// Stops with `Internal`, the store having answered otherwise than asked.
    pub open spec fn unexpected(self, a: Action) -> bool {
        self.stage is Failed && a matches Action::Abort(UploadError::Internal(_))
    }

    /// Once every dataset is resolved: the rows, and the request to check the
    /// store for their coordinates.
    pub open spec fn enters_store_check(self, a: Action) -> bool {
        match materialization(
            self.facts@,
            self.metadata,
            self.created@,
            self.existing@,
            self.source_id,
        ) {
            Some(rows) => self.stage is CheckingStore && self.rows@ == rows && (a matches Action::FindStoredDuplicate(v) && v@ == rows),
            None => self.unexpected(a),
        }
    }

    /// Creating the next declared dataset, or, with all created, the store
    /// check.
    pub open spec fn enters_dataset_creation(self, a: Action) -> bool {
        if self.created.len() < self.metadata.new_datasets.len() {
            self.stage is CreatingDatasets && (a matches Action::CreateDataset(d) && d
                == self.drafts@[self.created.len() as int])
        } else {
            self.enters_store_check(a)
        }
    }

    /// Creating the declared data source, or, for an existing one, the
    /// dataset creation.
    pub open spec fn enters_source_creation(self, a: Action) -> bool {
        match self.metadata.source {
            Source::New(d) => self.stage is CreatingSource && (a matches Action::CreateSource(x)
                && x == d),
            Source::ExistingId(_) => self.enters_dataset_creation(a),
        }
    }

    /// Fetching the next existing dataset, or, with all fetched, the source
    /// creation.
    pub open spec fn enters_fetch(self, a: Action) -> bool {
        if self.existing.len() < self.metadata.existing_datasets.len() {
            self.stage is FetchingDatasets && (a matches Action::FetchDataset(id) && id
                == self.metadata.existing_datasets@[self.existing.len() as int].id)
        } else {
            self.enters_source_creation(a)
        }
    }

    /// Checking a declared data source (its link, then its name and
    /// description, then the store for its name); an existing one is taken
    /// as it is.
    pub open spec fn enters_source_check(self, a: Action) -> bool {
        match self.metadata.source {
            Source::New(d) => if !is_uri(d.link@) {
                self.stage is Failed && (a matches Action::Abort(
                    UploadError::DataSourceLinkInvalid(l),
                ) && l@ == d.link@)
            } else if d.name@.len() == 0 || d.description@.len() == 0 {
                self.stage is Failed && a matches Action::Abort(UploadError::DataSourceIncomplete)
            } else {
                self.stage is CheckingSource && (a matches Action::FindSourceByName(n) && n@
                    == d.name@)
            },
            Source::ExistingId(id) => self.source_id == id && self.enters_fetch(a),
        }
    }
}


/// One step of an upload: `old`, on the store's answer `event`, becomes
/// `new` and issues `a`. An answer that does not fit the pending request
/// ends the upload with `Internal`.
pub open spec fn transition(old: Upload, event: Event, new: Upload, a: Action) -> bool {
    &&& new.metadata == old.metadata
    &&& new.facts == old.facts
    &&& new.drafts == old.drafts
    &&& match event {
        Event::StoreFailed(m) => new.stage is Failed && (a matches Action::Abort(
            UploadError::Internal(x),
        ) && x == m),
        Event::DuplicateDatasets(found) => if old.stage is CheckingDatasets {
            if found.len() > 0 {
                new.stage is Failed && a == Action::Abort(UploadError::DuplicateDatasets(found))
            } else {
                &&& new.stage is CheckingGeoIds
                &&& new.existing == old.existing
                &&& new.created == old.created
                &&& a matches Action::FindInvalidGeoIds(ids)
                &&& lists_referenced_ids(ids@, old.facts@, old.metadata.geography_type)
            }
        } else {
            new.unexpected(a)
        },
        Event::InvalidGeoIds(found) => if old.stage is CheckingGeoIds {
            if found.len() > 0 {
                new.stage is Failed && a == Action::Abort(UploadError::InvalidGeoIds(found))
            } else {
                new.existing == old.existing && new.created == old.created
                    && new.enters_source_check(a)
            }
        } else {
            new.unexpected(a)
        },
        Event::SourceByName(found) => if old.stage is CheckingSource {
            match found {
                Some(ds) => new.stage is Failed && a == Action::Abort(
                    UploadError::DuplicateDataSource(ds),
                ),
                None => new.existing == old.existing && new.created == old.created
                    && new.source_id == old.source_id && new.enters_fetch(a),
            }
        } else {
            new.unexpected(a)
        },
        Event::Dataset(d) => if old.stage is FetchingDatasets {
            new.existing@ == old.existing@.push(resolved(d)) && new.created == old.created
                && new.source_id == old.source_id && new.enters_fetch(a)
        } else if old.stage is CreatingDatasets {
            new.created@ == old.created@.push(resolved(d)) && new.existing == old.existing
                && new.source_id == old.source_id && new.enters_dataset_creation(a)
        } else {
            new.unexpected(a)
        },
        Event::SourceCreated(id) => if old.stage is CreatingSource {
            new.source_id == id && new.existing == old.existing && new.created == old.created
                && new.enters_dataset_creation(a)
        } else {
            new.unexpected(a)
        },
        Event::StoredDuplicate(found) => if old.stage is CheckingStore {
            match found {
                Some(row) => new.stage is Failed && a == Action::Abort(
                    UploadError::DuplicateDataInStore(row),
                ),
                None => {
                    &&& new.stage is Inserting
                    &&& new.rows == old.rows
                    &&& new.existing == old.existing
                    &&& new.created == old.created
                    &&& new.source_id == old.source_id
                    &&& a matches Action::Insert(v)
                    &&& v@ == old.rows@
                },
            }
        } else {
            new.unexpected(a)
        },
        Event::Inserted(n) => if old.stage is Inserting {
            if n == old.rows.len() {
                new.stage is Done && a == Action::Commit(n)
            } else {
                new.unexpected(a)
            }
        } else {
            new.unexpected(a)
        },
    }
}

/// A copy of `d`.
fn copy_draft(d: &dataset::Creator) -> (r: dataset::Creator)
    ensures
        r == *d,
{
    dataset::Creator {
        name: d.name.clone(),
        short_name: d.short_name.clone(),
        units: d.units.clone(),
        geography_type: d.geography_type,
        description: d.description.clone(),
    }
}

/// A copy of `d`.
fn copy_source(d: &NewDataSource) -> (r: NewDataSource)
    ensures
        r == *d,
{
    NewDataSource {
        name: d.name.clone(),
        description: d.description.clone(),
        link: d.link.clone(),
    }
}

impl Upload {
    /// Begins an upload of `facts` under `metadata`: the first request asks
    /// which stored datasets the declared ones would repeat.
    pub fn start(metadata: UploadMetadata, facts: Vec<Parsed>) -> (r: (Upload, Action))
        requires
            metadata.columns_distinct(),
        ensures
            r.0.wf(),
            r.0.stage is CheckingDatasets,
            r.0.metadata == metadata,
            r.0.facts == facts,
            r.0.existing.len() == 0,
            r.0.created.len() == 0,
            r.1 matches Action::FindDuplicateDatasets(d) && d@ == r.0.drafts@,
    {
        let mut drafts: Vec<dataset::Creator> = Vec::new();
        let mut copies: Vec<dataset::Creator> = Vec::new();
        let mut i: usize = 0;
        while i < metadata.new_datasets.len()
            invariant
                i <= metadata.new_datasets.len(),
                drafts.len() == i,
                copies@ == drafts@,
                forall|k: int|
                    0 <= k < i ==> drafted(
                        #[trigger] drafts@[k],
                        metadata.new_datasets@[k].dataset,
                        metadata.geography_type,
                    ),
            decreases metadata.new_datasets.len() - i,
        {
            let d = dataset::Creator::from(&metadata.new_datasets[i].dataset, metadata.geography_type);
            copies.push(copy_draft(&d));
            drafts.push(d);
            i = i + 1;
        }
        let upload = Upload {
            metadata,
            facts,
            drafts,
            stage: Stage::CheckingDatasets,
            existing: Vec::new(),
            created: Vec::new(),
            source_id: 0,
            rows: Vec::new(),
        };
        (upload, Action::FindDuplicateDatasets(copies))
    }

    /// Ends the upload on an answer that does not fit the pending request.
    fn fail_unexpected(&mut self) -> (a: Action)
        ensures
            final(self).unexpected(a),
            final(self).metadata == old(self).metadata,
            final(self).facts == old(self).facts,
            final(self).drafts == old(self).drafts,
            final(self).existing == old(self).existing,
            final(self).created == old(self).created,
    {
        self.stage = Stage::Failed;
        Action::Abort(UploadError::Internal("the store answered another request".to_string()))
    }

    fn enter_store_check(&mut self) -> (a: Action)
        requires
            old(self).wf_base(),
            old(self).existing.len() == old(self).metadata.existing_datasets.len(),
            old(self).created.len() == old(self).metadata.new_datasets.len(),
        ensures
            final(self).wf(),
            final(self).enters_store_check(a),
            final(self).metadata == old(self).metadata,
            final(self).facts == old(self).facts,
            final(self).drafts == old(self).drafts,
            final(self).existing == old(self).existing,
            final(self).created == old(self).created,
            final(self).source_id == old(self).source_id,
    {
        match materialize(&self.facts, &self.metadata, &self.created, &self.existing, self.source_id) {
            Some(rows) => {
                self.rows = rows;
                self.stage = Stage::CheckingStore;
                Action::FindStoredDuplicate(copy_rows(&self.rows))
            },
            None => {
                self.stage = Stage::Failed;
                Action::Abort(UploadError::Internal("could not match datasets to data".to_string()))
            },
        }
    }

    fn enter_dataset_creation(&mut self) -> (a: Action)
        requires
            old(self).wf_base(),
            old(self).existing.len() == old(self).metadata.existing_datasets.len(),
        ensures
            final(self).wf(),
            final(self).enters_dataset_creation(a),
            final(self).metadata == old(self).metadata,
            final(self).facts == old(self).facts,
            final(self).drafts == old(self).drafts,
            final(self).existing == old(self).existing,
            final(self).created == old(self).created,
            final(self).source_id == old(self).source_id,
    {
        if self.created.len() < self.metadata.new_datasets.len() {
            self.stage = Stage::CreatingDatasets;
            Action::CreateDataset(copy_draft(&self.drafts[self.created.len()]))
        } else {
            self.enter_store_check()
        }
    }

    fn enter_source_creation(&mut self) -> (a: Action)
        requires
            old(self).wf_base(),
            old(self).existing.len() == old(self).metadata.existing_datasets.len(),
            old(self).created.len() == 0,
        ensures
            final(self).wf(),
            final(self).enters_source_creation(a),
            final(self).metadata == old(self).metadata,
            final(self).facts == old(self).facts,
            final(self).drafts == old(self).drafts,
            final(self).existing == old(self).existing,
            final(self).created == old(self).created,
            final(self).source_id == old(self).source_id,
    {
        match &self.metadata.source {
            Source::New(d) => {
                let x = copy_source(d);
                self.stage = Stage::CreatingSource;
                Action::CreateSource(x)
            },
            Source::ExistingId(_) => self.enter_dataset_creation(),
        }
    }

    fn enter_fetch(&mut self) -> (a: Action)
        requires
            old(self).wf_base(),
            old(self).created.len() == 0,
        ensures
            final(self).wf(),
            final(self).enters_fetch(a),
            final(self).metadata == old(self).metadata,
            final(self).facts == old(self).facts,
            final(self).drafts == old(self).drafts,
            final(self).existing == old(self).existing,
            final(self).created == old(self).created,
            final(self).source_id == old(self).source_id,
    {
        if self.existing.len() < self.metadata.existing_datasets.len() {
            self.stage = Stage::FetchingDatasets;
            Action::FetchDataset(self.metadata.existing_datasets[self.existing.len()].id)
        } else {
            self.enter_source_creation()
        }
    }

    fn enter_source_check(&mut self) -> (a: Action)
        requires
            old(self).wf_base(),
            old(self).created.len() == 0,
            old(self).existing.len() == 0,
        ensures
            final(self).wf(),
            final(self).enters_source_check(a),
            final(self).metadata == old(self).metadata,
            final(self).facts == old(self).facts,
            final(self).drafts == old(self).drafts,
            final(self).existing == old(self).existing,
            final(self).created == old(self).created,
    {
        match &self.metadata.source {
            Source::New(d) => {
                let link_is_uri = parses_as_uri(d.link.as_str());
                match validate_new_source(d, link_is_uri) {
                    Err(e) => {
                        self.stage = Stage::Failed;
                        Action::Abort(e)
                    },
                    Ok(()) => {
                        let name = d.name.clone();
                        self.stage = Stage::CheckingSource;
                        Action::FindSourceByName(name)
                    },
                }
            },
            Source::ExistingId(id) => {
                self.source_id = *id;
                self.enter_fetch()
            },
        }
    }

    /// Takes the store's answer to the pending request and gives the next
    /// request, the commit, or the abort.
    pub fn advance(&mut self, event: Event) -> (a: Action)
        requires
            old(self).wf(),
            !(old(self).stage is Done),
            !(old(self).stage is Failed),
        ensures
            final(self).wf(),
            transition(*old(self), event, *final(self), a),
    {
        match event {
            Event::StoreFailed(m) => {
                self.stage = Stage::Failed;
                Action::Abort(UploadError::Internal(m))
            },
            Event::DuplicateDatasets(found) => {
                if !matches!(self.stage, Stage::CheckingDatasets) {
                    return self.fail_unexpected();
                }
                if found.len() > 0 {
                    self.stage = Stage::Failed;
                    return Action::Abort(UploadError::DuplicateDatasets(found));
                }
                self.stage = Stage::CheckingGeoIds;
                Action::FindInvalidGeoIds(
                    referenced_geo_ids(&self.facts, self.metadata.geography_type),
                )
            },
            Event::InvalidGeoIds(found) => {
                if !matches!(self.stage, Stage::CheckingGeoIds) {
                    return self.fail_unexpected();
                }
                if found.len() > 0 {
                    self.stage = Stage::Failed;
                    return Action::Abort(UploadError::InvalidGeoIds(found));
                }
                self.enter_source_check()
            },
            Event::SourceByName(found) => {
                if !matches!(self.stage, Stage::CheckingSource) {
                    return self.fail_unexpected();
                }
                match found {
                    Some(ds) => {
                        self.stage = Stage::Failed;
                        Action::Abort(UploadError::DuplicateDataSource(ds))
                    },
                    None => self.enter_fetch(),
                }
            },
            Event::Dataset(d) => {
                if matches!(self.stage, Stage::FetchingDatasets) {
                    self.existing.push(ResolvedDataset { id: d.id, geography_type: d.geography_type });
                    self.enter_fetch()
                } else if matches!(self.stage, Stage::CreatingDatasets) {
                    self.created.push(ResolvedDataset { id: d.id, geography_type: d.geography_type });
                    self.enter_dataset_creation()
                } else {
                    self.fail_unexpected()
                }
            },
            Event::SourceCreated(id) => {
                if !matches!(self.stage, Stage::CreatingSource) {
                    return self.fail_unexpected();
                }
                self.source_id = id;
                self.enter_dataset_creation()
            },
            Event::StoredDuplicate(found) => {
                if !matches!(self.stage, Stage::CheckingStore) {
                    return self.fail_unexpected();
                }
                match found {
                    Some(row) => {
                        self.stage = Stage::Failed;
                        Action::Abort(UploadError::DuplicateDataInStore(row))
                    },
                    None => {
                        self.stage = Stage::Inserting;
                        Action::Insert(copy_rows(&self.rows))
                    },
                }
            },
            Event::Inserted(n) => {
                if !matches!(self.stage, Stage::Inserting) {
                    return self.fail_unexpected();
                }
                if n == self.rows.len() as u64 {
                    self.stage = Stage::Done;
                    Action::Commit(n)
                } else {
                    self.fail_unexpected()
                }
            },
        }
    }
}

} // verus!
