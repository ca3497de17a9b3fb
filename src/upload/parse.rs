//! Turning CSV records into candidate facts, row by row, with in-file
//! duplicate detection.
//!
//! A data cell that is empty or is not a floating-point number measures
//! nothing: it adds no fact and is no error. A column the metadata names but
//! the header lacks is an error, whatever the cells hold.
use super::csv_table::{
    cell, csv_records, find_column, lemma_find_last_bounds, pairs_record, read_records, record_of,
    records_view,
};
use super::error::UploadError;
use super::key::{fact_key, fact_key_exec, lemma_fact_key_injective};
use crate::decimal::{is_float_text, is_float_text_exec, parse_i32, parse_i32_exec};
use crate::model::data::{has_identity, identity, Fact, Parsed};
use crate::model::date::{first_day, last_day, year_end, year_in_range, year_start};
use crate::model::upload_metadata::{names_distinct, UploadMetadata};
use std::collections::HashSet;
use vstd::prelude::*;

verus! {

broadcast use vstd::std_specs::hash::group_hash_axioms;

/// Why a row was refused, in mathematical terms; `row` counts data rows from
/// zero, the header not included.
pub enum RowFailure {
    MissingColumn { column: Seq<char>, row: int },
    GeoIdNotNumeric { value: Seq<char>, row: int },
    InvalidYear { value: Seq<char>, row: int },
    DuplicateDataInCsv { row: int, fact: Fact },
}

/// The fact a measured cell gives.
pub open spec fn fact_of(column: Seq<char>, year: i32, id: i32, value: Seq<char>) -> Fact {
    Fact { dataset: column, start_date: first_day(year), end_date: last_day(year), id, value }
}

/// One data column of one row, after the facts `facts`: a cell that is not
/// a number measures nothing; a number adds a fact unless its coordinates
/// were seen before.
pub open spec fn cell_step(
    facts: Seq<Fact>,
    header: Seq<Seq<char>>,
    row: Seq<Seq<char>>,
    i: int,
    id: i32,
    year: i32,
    column: Seq<char>,
) -> Result<Seq<Fact>, RowFailure> {
    match cell(header, row, column) {
        None => Err(RowFailure::MissingColumn { column, row: i }),
        Some(text) => if !is_float_text(text) {
            Ok(facts)
        } else if has_identity(facts, fact_of(column, year, id, text)) {
            Err(RowFailure::DuplicateDataInCsv { row: i, fact: fact_of(column, year, id, text) })
        } else {
            Ok(facts.push(fact_of(column, year, id, text)))
        },
    }
}

/// The first `k` data columns of one row, in order.
pub open spec fn cells_outcome(
    facts: Seq<Fact>,
    header: Seq<Seq<char>>,
    row: Seq<Seq<char>>,
    i: int,
    id: i32,
    year: i32,
    columns: Seq<Seq<char>>,
    k: int,
) -> Result<Seq<Fact>, RowFailure>
    decreases k,
{
    if k <= 0 {
        Ok(facts)
    } else {
        match cells_outcome(facts, header, row, i, id, year, columns, k - 1) {
            Err(e) => Err(e),
            Ok(fs) => cell_step(fs, header, row, i, id, year, columns[k - 1]),
        }
    }
}

/// Data row `i`: its identifier, its year, then each data column.
pub open spec fn row_outcome(
    facts: Seq<Fact>,
    header: Seq<Seq<char>>,
    row: Seq<Seq<char>>,
    i: int,
    metadata: UploadMetadata,
) -> Result<Seq<Fact>, RowFailure> {
    match cell(header, row, metadata.id_column@) {
        None => Err(RowFailure::MissingColumn { column: metadata.id_column@, row: i }),
        Some(id_text) => match parse_i32(id_text) {
            None => Err(RowFailure::GeoIdNotNumeric { value: id_text, row: i }),
            Some(id) => match cell(header, row, metadata.date_column@) {
                None => Err(RowFailure::MissingColumn { column: metadata.date_column@, row: i }),
                Some(year_text) => match parse_i32(year_text) {
                    None => Err(RowFailure::InvalidYear { value: year_text, row: i }),
                    Some(year) => if !year_in_range(year as int) {
                        Err(RowFailure::InvalidYear { value: year_text, row: i })
                    } else {
                        cells_outcome(
                            facts,
                            header,
                            row,
                            i,
                            id,
                            year,
                            metadata.data_columns(),
                            metadata.data_columns().len() as int,
                        )
                    },
                },
            },
        },
    }
}

/// The first `n` data rows, in order; the first failure ends the parse.
pub open spec fn rows_outcome(
    records: Seq<Seq<Seq<char>>>,
    metadata: UploadMetadata,
    n: int,
) -> Result<Seq<Fact>, RowFailure>
    decreases n,
{
    if n <= 0 {
        Ok(Seq::empty())
    } else {
        match rows_outcome(records, metadata, n - 1) {
            Err(e) => Err(e),
            Ok(fs) => row_outcome(fs, records[0], records[n], n - 1, metadata),
        }
    }
}

/// The facts of a whole file whose first record is the header, or the first
/// row failure.
pub open spec fn parse_outcome(records: Seq<Seq<Seq<char>>>, metadata: UploadMetadata) -> Result<
    Seq<Fact>,
    RowFailure,
> {
    if records.len() == 0 {
        Ok(Seq::empty())
    } else {
        rows_outcome(records, metadata, records.len() - 1)
    }
}

/// `e` is the error that reports `f`, on the records `records`.
pub open spec fn reports(e: UploadError, f: RowFailure, records: Seq<Seq<Seq<char>>>) -> bool {
    match f {
        RowFailure::MissingColumn { column, row } => e matches UploadError::MissingColumn {
            column: c,
            row: r,
            record,
        } && c@ == column && r == row && pairs_record(record@, records[0], records[row + 1]),
        RowFailure::GeoIdNotNumeric { value, row } => e matches UploadError::GeoIdNotNumeric {
            geo_id,
            row: r,
        } && geo_id@ == value && r == row,
        RowFailure::InvalidYear { value, row } => e matches UploadError::InvalidYear {
            year,
            row: r,
        } && year@ == value && r == row,
        RowFailure::DuplicateDataInCsv { row, fact } => e matches UploadError::DuplicateDataInCsv {
            row: r,
            parsed_data,
        } && parsed_data@ == fact && r == row,
    }
}

pub open spec fn facts_view(facts: Seq<Parsed>) -> Seq<Fact> {
    facts.map_values(|p: Parsed| p@)
}

/// `r` is what parsing `records` under `metadata` gives.
pub open spec fn parsed_as(
    r: Result<Vec<Parsed>, UploadError>,
    records: Seq<Seq<Seq<char>>>,
    metadata: UploadMetadata,
) -> bool {
    match parse_outcome(records, metadata) {
        Ok(facts) => r matches Ok(v) && facts_view(v@) == facts,
        Err(f) => r matches Err(e) && reports(e, f, records),
    }
}

/// A failure in a row's cells stands whatever columns follow.
pub(crate) proof fn lemma_cells_err_sticks(
    facts: Seq<Fact>,
    header: Seq<Seq<char>>,
    row: Seq<Seq<char>>,
    i: int,
    id: i32,
    year: i32,
    columns: Seq<Seq<char>>,
    k: int,
    m: int,
)
    requires
        0 <= k <= m,
        cells_outcome(facts, header, row, i, id, year, columns, k) is Err,
    ensures
        cells_outcome(facts, header, row, i, id, year, columns, m) == cells_outcome(
            facts,
            header,
            row,
            i,
            id,
            year,
            columns,
            k,
        ),
    decreases m - k,
{
    if m > k {
        lemma_cells_err_sticks(facts, header, row, i, id, year, columns, k, m - 1);
    }
}

/// A failure in a row stands whatever rows follow.
pub(crate) proof fn lemma_rows_err_sticks(records: Seq<Seq<Seq<char>>>, metadata: UploadMetadata, k: int, m: int)
    requires
        0 <= k <= m,
        rows_outcome(records, metadata, k) is Err,
    ensures
        rows_outcome(records, metadata, m) == rows_outcome(records, metadata, k),
    decreases m - k,
{
    if m > k {
        lemma_rows_err_sticks(records, metadata, k, m - 1);
    }
}


/// Each fact's key, under the column it came from, is in `seen`, and nothing
/// else is.
pub open spec fn keyed(facts: Seq<Parsed>, col_of: Seq<int>, seen: Set<u128>, cols: Seq<Seq<char>>) -> bool {
    &&& col_of.len() == facts.len()
    &&& forall|j: int|
        0 <= j < facts.len() ==> {
            &&& 0 <= #[trigger] col_of[j] < cols.len()
            &&& facts[j].dataset@ == cols[col_of[j]]
            &&& facts[j].start_date == first_day(facts[j].start_date.year)
            &&& facts[j].end_date == last_day(facts[j].start_date.year)
        }
    &&& forall|key: u128|
        seen.contains(key) <==> exists|j: int|
            0 <= j < facts.len() && key as int == fact_key(
                #[trigger] col_of[j],
                facts[j].start_date.year as int,
                facts[j].id as int,
            )
}

proof fn lemma_seen_iff_identity(
    facts: Seq<Parsed>,
    col_of: Seq<int>,
    seen: Set<u128>,
    cols: Seq<Seq<char>>,
    k: int,
    year: i32,
    id: i32,
    value: Seq<char>,
    key: u128,
)
    requires
        keyed(facts, col_of, seen, cols),
        cols.no_duplicates(),
        0 <= k < cols.len(),
        cols.len() <= usize::MAX,
        key as int == fact_key(k, year as int, id as int),
    ensures
        seen.contains(key) <==> has_identity(facts_view(facts), fact_of(cols[k], year, id, value)),
{
    let f = fact_of(cols[k], year, id, value);
    let fv = facts_view(facts);
    if seen.contains(key) {
        let j = choose|j: int|
            0 <= j < facts.len() && key as int == fact_key(
                #[trigger] col_of[j],
                facts[j].start_date.year as int,
                facts[j].id as int,
            );
        lemma_fact_key_injective(col_of[j], facts[j].start_date.year, facts[j].id, k, year, id);
        assert(identity(fv[j]) == identity(f));
    }
    if has_identity(fv, f) {
        let j = choose|j: int| 0 <= j < fv.len() && identity(#[trigger] fv[j]) == identity(f);
        assert(fv[j] == facts[j]@);
        assert(col_of[j] == k);
        assert(facts[j].start_date.year == year);
        assert(key as int == fact_key(col_of[j], facts[j].start_date.year as int, facts[j].id as int));
    }
}

proof fn lemma_keyed_push(
    facts: Seq<Parsed>,
    col_of: Seq<int>,
    seen: Set<u128>,
    cols: Seq<Seq<char>>,
    fact: Parsed,
    k: int,
    key: u128,
)
    requires
        keyed(facts, col_of, seen, cols),
        0 <= k < cols.len(),
        fact.dataset@ == cols[k],
        fact.start_date == first_day(fact.start_date.year),
        fact.end_date == last_day(fact.start_date.year),
        key as int == fact_key(k, fact.start_date.year as int, fact.id as int),
    ensures
        keyed(facts.push(fact), col_of.push(k), seen.insert(key), cols),
{
    let facts2 = facts.push(fact);
    let col2 = col_of.push(k);
    assert forall|j: int| 0 <= j < facts.len() implies #[trigger] col2[j] == col_of[j] && facts2[j]
        == facts[j] by {}
    assert forall|key2: u128| seen.insert(key).contains(key2) <==> exists|j: int|
        0 <= j < facts2.len() && key2 as int == fact_key(
            #[trigger] col2[j],
            facts2[j].start_date.year as int,
            facts2[j].id as int,
        ) by {
        if seen.contains(key2) {
            let j = choose|j: int|
                0 <= j < facts.len() && key2 as int == fact_key(
                    #[trigger] col_of[j],
                    facts[j].start_date.year as int,
                    facts[j].id as int,
                );
            assert(col2[j] == col_of[j]);
        }
        if key2 == key {
            assert(col2[facts.len() as int] == k);
        }
        if exists|j: int|
            0 <= j < facts2.len() && key2 as int == fact_key(
                #[trigger] col2[j],
                facts2[j].start_date.year as int,
                facts2[j].id as int,
            ) {
            let j = choose|j: int|
                0 <= j < facts2.len() && key2 as int == fact_key(
                    #[trigger] col2[j],
                    facts2[j].start_date.year as int,
                    facts2[j].id as int,
                );
            if j < facts.len() {
                assert(col2[j] == col_of[j]);
                assert(seen.contains(key2));
            }
        }
    }
}

/// The field of `row` under `column`, as `cell` describes it.
fn lookup(header: &Vec<String>, row: &Vec<String>, column: &String) -> (r: Option<usize>)
    ensures
        match cell(header@.map_values(|s: String| s@), row@.map_values(|s: String| s@), column@) {
            Some(t) => r matches Some(k) && k < row.len() && row@[k as int]@ == t,
            None => r is None,
        },
{
    proof {
        lemma_find_last_bounds(
            header@.map_values(|s: String| s@),
            column@,
            header.len() as int,
        );
    }
    match find_column(header, column) {
        Some(k) => if k < row.len() {
            Some(k)
        } else {
            None
        },
        None => None,
    }
}


/// The error for `column` missing from data row `row`, whose record is
/// `fields` under `header`.
fn missing_column(column: &String, row: usize, header: &Vec<String>, fields: &Vec<String>) -> (r:
    UploadError)
    ensures
        r matches UploadError::MissingColumn { column: c, row: i, record } && c@ == column@ && i
            == row && pairs_record(
            record@,
            header@.map_values(|s: String| s@),
            fields@.map_values(|s: String| s@),
        ),
{
    UploadError::MissingColumn {
        column: column.clone(),
        row,
        record: record_of(header, fields),
    }
}

/// Parses CSV records, the header first, into the facts they hold under
/// `metadata`, or the first row failure.
pub fn parse_records(records: &Vec<Vec<String>>, metadata: &UploadMetadata) -> (r: Result<
    Vec<Parsed>,
    UploadError,
>)
    requires
        metadata.columns_distinct(),
    ensures
        parsed_as(r, records_view(records@), *metadata),
{
    let ghost recs = records_view(records@);
    let ghost meta = *metadata;
    let columns = metadata.data_column_names();
    let ghost cols = metadata.data_columns();
    let mut facts: Vec<Parsed> = Vec::new();
    if records.len() == 0 {
        proof {
            assert(facts_view(facts@) =~= Seq::<Fact>::empty());
        }
        return Ok(facts);
    }
    let header = &records[0];
    let mut seen: HashSet<u128> = HashSet::new();
    let ghost mut col_of: Seq<int> = Seq::empty();
    let mut r: usize = 1;
    proof {
        assert(facts_view(facts@) =~= Seq::<Fact>::empty());
    }
    while r < records.len()
        invariant
            1 <= r <= records.len(),
            recs == records_view(records@),
            meta == *metadata,
            header == records@[0],
            recs[0] == header@.map_values(|s: String| s@),
            cols == metadata.data_columns(),
            columns@.map_values(|s: String| s@) == cols,
            cols.no_duplicates(),
            rows_outcome(recs, meta, r - 1) == Ok::<Seq<Fact>, RowFailure>(facts_view(facts@)),
            keyed(facts@, col_of, seen@, cols),
        decreases records.len() - r,
    {
        let row = &records[r];
        let ghost hv = recs[0];
        let ghost rv = recs[r as int];
        let ghost i = r - 1;
        let ghost before = facts_view(facts@);
        assert(rv == row@.map_values(|s: String| s@));
        assert(r - 1 + 1 == r);
        proof {
            lemma_row_step(recs, meta, r as int);
        }
        let id_text = match lookup(header, row, &metadata.id_column) {
            None => {
                proof {
                    lemma_rows_err_sticks(recs, meta, r as int, recs.len() - 1);
                }
                return Err(missing_column(&metadata.id_column, r - 1, header, row));
            },
            Some(k) => &row[k],
        };
        let id = match parse_i32_exec(id_text.as_str()) {
            None => {
                proof {
                    lemma_rows_err_sticks(recs, meta, r as int, recs.len() - 1);
                }
                return Err(UploadError::GeoIdNotNumeric { geo_id: id_text.clone(), row: r - 1 });
            },
            Some(v) => v,
        };
        let year_text = match lookup(header, row, &metadata.date_column) {
            None => {
                proof {
                    lemma_rows_err_sticks(recs, meta, r as int, recs.len() - 1);
                }
                return Err(missing_column(&metadata.date_column, r - 1, header, row));
            },
            Some(k) => &row[k],
        };
        let year = match parse_i32_exec(year_text.as_str()) {
            None => {
                proof {
                    lemma_rows_err_sticks(recs, meta, r as int, recs.len() - 1);
                }
                return Err(UploadError::InvalidYear { year: year_text.clone(), row: r - 1 });
            },
            Some(v) => v,
        };
        let (start, end) = match (year_start(year), year_end(year)) {
            (Some(start), Some(end)) => (start, end),
            _ => {
                proof {
                    lemma_rows_err_sticks(recs, meta, r as int, recs.len() - 1);
                }
                return Err(UploadError::InvalidYear { year: year_text.clone(), row: r - 1 });
            },
        };
        assert(row_outcome(before, hv, rv, i, meta) == cells_outcome(
            before,
            hv,
            rv,
            i,
            id,
            year,
            cols,
            cols.len() as int,
        ));
        let mut k: usize = 0;
        while k < columns.len()
            invariant
                0 <= k <= columns.len(),
                columns@.map_values(|s: String| s@) == cols,
                cols.no_duplicates(),
                1 <= r < records.len(),
                recs == records_view(records@),
                meta == *metadata,
                header == records@[0],
                row == records@[r as int],
                hv == header@.map_values(|s: String| s@),
                rv == row@.map_values(|s: String| s@),
                i == r - 1,
                start == first_day(year),
                end == last_day(year),
                rows_outcome(recs, meta, r as int) == row_outcome(before, hv, rv, i, meta),
                row_outcome(before, hv, rv, i, meta) == cells_outcome(
                    before,
                    hv,
                    rv,
                    i,
                    id,
                    year,
                    cols,
                    cols.len() as int,
                ),
                cells_outcome(before, hv, rv, i, id, year, cols, k as int) == Ok::<
                    Seq<Fact>,
                    RowFailure,
                >(facts_view(facts@)),
                keyed(facts@, col_of, seen@, cols),
            decreases columns.len() - k,
        {
            let ghost now = facts_view(facts@);
            assert(columns@[k as int]@ == cols[k as int]);
            let c = match lookup(header, row, &columns[k]) {
                None => {
                    proof {
                        lemma_cells_err_sticks(
                            before,
                            hv,
                            rv,
                            i,
                            id,
                            year,
                            cols,
                            k + 1,
                            cols.len() as int,
                        );
                        lemma_rows_err_sticks(recs, meta, r as int, recs.len() - 1);
                    }
                    return Err(missing_column(&columns[k], r - 1, header, row));
                },
                Some(c) => c,
            };
            let text = &row[c];
            if is_float_text_exec(text.as_str()) {
                let key = fact_key_exec(k, year, id);
                proof {
                    lemma_seen_iff_identity(
                        facts@,
                        col_of,
                        seen@,
                        cols,
                        k as int,
                        year,
                        id,
                        text@,
                        key,
                    );
                }
                let ghost seen_before = seen@;
                let fresh = seen.insert(key);
                let fact = Parsed {
                    dataset: columns[k].clone(),
                    start_date: start,
                    end_date: end,
                    id,
                    value: text.clone(),
                };
                assert(fact@ == fact_of(cols[k as int], year, id, text@));
                if !fresh {
                    proof {
                        lemma_cells_err_sticks(
                            before,
                            hv,
                            rv,
                            i,
                            id,
                            year,
                            cols,
                            k + 1,
                            cols.len() as int,
                        );
                        lemma_rows_err_sticks(recs, meta, r as int, recs.len() - 1);
                    }
                    return Err(UploadError::DuplicateDataInCsv { row: r - 1, parsed_data: fact });
                }
                proof {
                    lemma_keyed_push(facts@, col_of, seen_before, cols, fact, k as int, key);
                }
                facts.push(fact);
                proof {
                    col_of = col_of.push(k as int);
                    assert(facts_view(facts@) =~= now.push(fact@));
                }
            }
            k = k + 1;
        }
        r = r + 1;
    }
    proof {
        assert(recs.len() - 1 == r - 1);
    }
    Ok(facts)
}

/// Unfolds `rows_outcome` by one row.
proof fn lemma_row_step(records: Seq<Seq<Seq<char>>>, metadata: UploadMetadata, n: int)
    requires
        n > 0,
        rows_outcome(records, metadata, n - 1) is Ok,
    ensures
        rows_outcome(records, metadata, n) == row_outcome(
            rows_outcome(records, metadata, n - 1)->Ok_0,
            records[0],
            records[n],
            n - 1,
            metadata,
        ),
{
}


/// Parses an uploaded CSV file under `metadata`.
///
/// Metadata that maps one column to two datasets is refused, then a file
/// that is not well-formed delimited text; otherwise the result is that of
/// `parse_records` on the file's records.
pub fn parse_csv(bytes: &[u8], metadata: &UploadMetadata) -> (r: Result<Vec<Parsed>, UploadError>)
    ensures
        !metadata.columns_distinct() ==> r matches Err(UploadError::InvalidMetadata(_)),
        metadata.columns_distinct() ==> match csv_records(bytes@) {
            None => r matches Err(UploadError::InvalidCsv(_)),
            Some(records) => parsed_as(r, records, *metadata),
        },
{
    let columns = metadata.data_column_names();
    if !names_distinct(&columns) {
        return Err(
            UploadError::InvalidMetadata("a column is mapped to more than one dataset".to_string()),
        );
    }
    match read_records(bytes) {
        Err(e) => Err(UploadError::InvalidCsv(e.to_string())),
        Ok(records) => parse_records(&records, metadata),
    }
}

} // verus!
