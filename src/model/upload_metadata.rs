//! The descriptor that accompanies an uploaded CSV.
use super::data_source::NewDataSource;
use super::dataset::PartialCreator;
use vstd::prelude::*;

verus! {

/// Where the uploaded measurements come from.
#[derive(Debug, Clone, PartialEq, Eq)]
pub enum Source {
    ExistingId(i32),
    New(NewDataSource),
}

#[derive(Debug, Clone, PartialEq, Eq)]
pub struct Column {
    pub name: String,
}

/// A CSV column whose values form a dataset the upload declares.
#[derive(Debug, Clone, PartialEq, Eq)]
pub struct NewDatasetColumn {
    pub column: String,
    pub dataset: PartialCreator,
}

/// A CSV column whose values belong to a dataset the store already has.
#[derive(Debug, Clone, PartialEq, Eq)]
pub struct ExistingDatasetColumn {
    pub column: String,
    pub id: i32,
}

/// One upload: which columns hold the geographic identifier and the year,
/// which geography the identifiers belong to, where the data comes from, and
/// which columns feed which datasets.
#[derive(Debug, Clone, PartialEq, Eq)]
pub struct UploadMetadata {
    pub id_column: String,
    pub date_column: String,
    pub geography_type: i32,
    pub source: Source,
    pub new_datasets: Vec<NewDatasetColumn>,
    pub existing_datasets: Vec<ExistingDatasetColumn>,
}

impl UploadMetadata {
    /// The columns of declared datasets, then those of existing ones.
    pub open spec fn data_columns(&self) -> Seq<Seq<char>> {
        self.new_datasets@.map_values(|c: NewDatasetColumn| c.column@)
            + self.existing_datasets@.map_values(|c: ExistingDatasetColumn| c.column@)
    }

    /// No column is mapped to two datasets.
    pub open spec fn columns_distinct(&self) -> bool {
        self.data_columns().no_duplicates()
    }

    /// The columns of `data_columns`, in that order.
    pub fn data_column_names(&self) -> (r: Vec<String>)
        ensures
            r@.map_values(|s: String| s@) == self.data_columns(),
    {
        let mut r: Vec<String> = Vec::new();
        let n = self.new_datasets.len();
        let mut i: usize = 0;
        while i < n
            invariant
                i <= n,
                n == self.new_datasets.len(),
                r.len() == i,
                forall|k: int| 0 <= k < i ==> (#[trigger] r@[k])@ == self.new_datasets@[k].column@,
            decreases n - i,
        {
            r.push(self.new_datasets[i].column.clone());
            i = i + 1;
        }
        let mut j: usize = 0;
        while j < self.existing_datasets.len()
            invariant
                j <= self.existing_datasets.len(),
                n == self.new_datasets.len(),
                r.len() == n + j,
                forall|k: int| 0 <= k < n ==> (#[trigger] r@[k])@ == self.new_datasets@[k].column@,
                forall|k: int|
                    0 <= k < j ==> (#[trigger] r@[n + k])@ == self.existing_datasets@[k].column@,
            decreases self.existing_datasets.len() - j,
        {
            r.push(self.existing_datasets[j].column.clone());
            j = j + 1;
        }
        proof {
            let cols = self.data_columns();
            assert forall|k: int| 0 <= k < r.len() implies r@.map_values(|s: String| s@)[k]
                == cols[k] by {
                if k >= n {
                    assert(r@[n + (k - n)] == r@[k]);
                }
            }
            assert(r@.map_values(|s: String| s@) =~= cols);
        }
        r
    }
}

/// Whether no two entries of `names` are equal.
pub fn names_distinct(names: &Vec<String>) -> (r: bool)
    ensures
        r == names@.map_values(|s: String| s@).no_duplicates(),
{
    let ghost v = names@.map_values(|s: String| s@);
    let mut i: usize = 0;
    while i < names.len()
        invariant
            i <= names.len(),
            v == names@.map_values(|s: String| s@),
            forall|a: int, b: int| 0 <= a < b < names.len() && a < i ==> v[a] != v[b],
        decreases names.len() - i,
    {
        let mut j: usize = i + 1;
        while j < names.len()
            invariant
                i < names.len(),
                i < j <= names.len(),
                v == names@.map_values(|s: String| s@),
                forall|a: int, b: int| 0 <= a < b < names.len() && a < i ==> v[a] != v[b],
                forall|b: int| i < b < j ==> v[i as int] != v[b],
            decreases names.len() - j,
        {
            if names[i] == names[j] {
                proof {
                    assert(v[i as int] == v[j as int]);
                }
                return false;
            }
            j = j + 1;
        }
        i = i + 1;
    }
    true
}

} // verus!
