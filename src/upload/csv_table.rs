//! Reading delimited text into records, and finding a named column in them.
use vstd::prelude::*;

verus! {

#[verifier::external_type_specification]
#[verifier::external_body]
pub struct ExCsvError(csv::Error);

/// The records of a CSV text, the header first, where the text is
/// well-formed.
pub uninterp spec fn csv_records(bytes: Seq<u8>) -> Option<Seq<Seq<Seq<char>>>>;

/// Records in mathematical terms.
pub open spec fn records_view(rows: Seq<Vec<String>>) -> Seq<Seq<Seq<char>>> {
    rows.map_values(|r: Vec<String>| r@.map_values(|s: String| s@))
}

/// Relies on `csv::Reader::records` with default settings except that the
/// first record is returned too: the records depend on the bytes alone, and
/// since the reader is not flexible each has as many fields as the first.
#[verifier::external_body]
pub(crate) fn read_records(bytes: &[u8]) -> (r: Result<Vec<Vec<String>>, csv::Error>)
    ensures
        r matches Ok(rows) ==> csv_records(bytes@) == Some(records_view(rows@)),
        r is Err ==> csv_records(bytes@) is None,
        r matches Ok(rows) ==> forall|i: int|
            0 <= i < rows.len() ==> (#[trigger] rows[i]).len() == rows[0].len(),
{
    let mut reader = csv::ReaderBuilder::new().has_headers(false).from_reader(bytes);
    reader.records().map(
        |record| record.map(|fields| fields.iter().map(String::from).collect()),
    ).collect()
}

/// The last position below `n` at which `header` names `column`.
pub open spec fn find_last(header: Seq<Seq<char>>, column: Seq<char>, n: int) -> Option<int>
    decreases n,
{
    if n <= 0 {
        None
    } else if header[n - 1] == column {
        Some(n - 1)
    } else {
        find_last(header, column, n - 1)
    }
}

/// Where `header` names `column`; a repeated name refers to its last
/// occurrence, as when a record is read into a map keyed by the header.
pub open spec fn column_index(header: Seq<Seq<char>>, column: Seq<char>) -> Option<int> {
    find_last(header, column, header.len() as int)
}

/// The field of `row` under `column`, if the header has that column and the
/// row reaches it.
pub open spec fn cell(header: Seq<Seq<char>>, row: Seq<Seq<char>>, column: Seq<char>) -> Option<
    Seq<char>,
> {
    match column_index(header, column) {
        Some(i) => if i < row.len() {
            Some(row[i])
        } else {
            None
        },
        None => None,
    }
}

pub proof fn lemma_find_last_bounds(header: Seq<Seq<char>>, column: Seq<char>, n: int)
    requires
        n <= header.len(),
    ensures
        find_last(header, column, n) matches Some(i) ==> 0 <= i < n && header[i] == column,
    decreases n,
{
    if n > 0 {
        lemma_find_last_bounds(header, column, n - 1);
    }
}

/// The position of `column` in `header`, as `column_index` gives it.
pub fn find_column(header: &Vec<String>, column: &String) -> (r: Option<usize>)
    ensures
        r matches Some(i) ==> column_index(header@.map_values(|s: String| s@), column@) == Some(
            i as int,
        ),
        r is None ==> column_index(header@.map_values(|s: String| s@), column@) is None,
{
    let ghost h = header@.map_values(|s: String| s@);
    let mut i: usize = header.len();
    while i > 0
        invariant
            i <= header.len(),
            h == header@.map_values(|s: String| s@),
            find_last(h, column@, header.len() as int) == find_last(h, column@, i as int),
        decreases i,
    {
        if header[i - 1] == *column {
            return Some(i - 1);
        }
        i = i - 1;
    }
    None
}

/// The header's names paired with the row's fields, as far as both reach.
pub open spec fn pairs_record(
    record: Seq<(String, String)>,
    header: Seq<Seq<char>>,
    row: Seq<Seq<char>>,
) -> bool {
    &&& record.len() == if header.len() <= row.len() {
        header.len()
    } else {
        row.len()
    }
    &&& forall|k: int|
        0 <= k < record.len() ==> (#[trigger] record[k]).0@ == header[k] && record[k].1@ == row[k]
}

/// Pairs each header name with the field of `row` below it.
pub fn record_of(header: &Vec<String>, row: &Vec<String>) -> (r: Vec<(String, String)>)
    ensures
        pairs_record(r@, header@.map_values(|s: String| s@), row@.map_values(|s: String| s@)),
{
    let n = if header.len() <= row.len() {
        header.len()
    } else {
        row.len()
    };
    let mut r: Vec<(String, String)> = Vec::new();
    let mut k: usize = 0;
    while k < n
        invariant
            k <= n,
            n <= header.len(),
            n <= row.len(),
            n == if header.len() <= row.len() {
                header.len()
            } else {
                row.len()
            },
            r.len() == k,
            forall|j: int|
                0 <= j < k ==> (#[trigger] r@[j]).0@ == header@[j]@ && r@[j].1@ == row@[j]@,
        decreases n - k,
    {
        r.push((header[k].clone(), row[k].clone()));
        k = k + 1;
    }
    r
}

} // verus!
