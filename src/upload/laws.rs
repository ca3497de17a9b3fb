//! What holds of every parse (facts are distinct, a repeated coordinate is
//! reported at the row that repeats it, a column absent from the header is
//! reported at the first row) and of every upload step (checks come before
//! writes, and the count committed is the number of distinct facts).
use super::csv_table::{cell, column_index};
use super::parse::{
    cell_step, cells_outcome, fact_of, lemma_cells_err_sticks, lemma_rows_err_sticks, parse_outcome,
    row_outcome, rows_outcome, RowFailure,
};
use crate::decimal::{is_float_text, parse_i32};
use super::error::UploadError;
use super::parse::facts_view;
use super::pipeline::{lists_referenced_ids, transition, writes, Action, Event, Upload};
use crate::model::data::{distinct_identities, has_identity, identity, Creator, Fact};
use crate::model::date::year_in_range;
use crate::model::upload_metadata::UploadMetadata;
use vstd::prelude::*;

verus! {

proof fn lemma_cells_keep_distinct(
    facts: Seq<Fact>,
    header: Seq<Seq<char>>,
    row: Seq<Seq<char>>,
    i: int,
    id: i32,
    year: i32,
    columns: Seq<Seq<char>>,
    k: int,
)
    requires
        distinct_identities(facts),
    ensures
        cells_outcome(facts, header, row, i, id, year, columns, k) matches Ok(fs)
            ==> distinct_identities(fs),
    decreases k,
{
    if k > 0 {
        lemma_cells_keep_distinct(facts, header, row, i, id, year, columns, k - 1);
        if let Ok(fs) = cells_outcome(facts, header, row, i, id, year, columns, k - 1) {
            let c = columns[k - 1];
            if let Some(text) = cell(header, row, c) {
                let f = fact_of(c, year, id, text);
                if is_float_text(text) && !has_identity(fs, f) {
                    let fs2 = fs.push(f);
                    assert forall|a: int, b: int|
                        0 <= a < fs2.len() && 0 <= b < fs2.len() && a != b implies identity(
                        #[trigger] fs2[a],
                    ) != identity(#[trigger] fs2[b]) by {
                        if a == fs.len() {
                            assert(fs2[b] == fs[b]);
                        } else if b == fs.len() {
                            assert(fs2[a] == fs[a]);
                        } else {
                            assert(fs2[a] == fs[a] && fs2[b] == fs[b]);
                        }
                    }
                }
            }
        }
    }
}

proof fn lemma_rows_keep_distinct(records: Seq<Seq<Seq<char>>>, metadata: UploadMetadata, n: int)
    ensures
        rows_outcome(records, metadata, n) matches Ok(fs) ==> distinct_identities(fs),
    decreases n,
{
    if n > 0 {
        lemma_rows_keep_distinct(records, metadata, n - 1);
        if let Ok(fs) = rows_outcome(records, metadata, n - 1) {
            let header = records[0];
            let row = records[n];
            if let Some(id_text) = cell(header, row, metadata.id_column@) {
                if let Some(id) = parse_i32(id_text) {
                    if let Some(year_text) = cell(header, row, metadata.date_column@) {
                        if let Some(year) = parse_i32(year_text) {
                            lemma_cells_keep_distinct(
                                fs,
                                header,
                                row,
                                n - 1,
                                id,
                                year,
                                metadata.data_columns(),
                                metadata.data_columns().len() as int,
                            );
                        }
                    }
                }
            }
        }
    }
}

/// Every successful parse yields facts with pairwise distinct coordinates, so
/// their number is the number of distinct coordinates the file holds under
/// the metadata.
pub proof fn law_parsed_facts_distinct(records: Seq<Seq<Seq<char>>>, metadata: UploadMetadata)
    ensures
        parse_outcome(records, metadata) matches Ok(facts) ==> {
            &&& distinct_identities(facts)
            &&& facts.map_values(|f: Fact| identity(f)).no_duplicates()
            &&& facts.map_values(|f: Fact| identity(f)).to_set().len() == facts.len()
        },
{
    if records.len() > 0 {
        lemma_rows_keep_distinct(records, metadata, records.len() - 1);
    }
    if let Ok(facts) = parse_outcome(records, metadata) {
        let ids = facts.map_values(|f: Fact| identity(f));
        assert forall|a: int, b: int| 0 <= a < ids.len() && 0 <= b < ids.len() && a != b implies ids[a]
            != ids[b] by {
            assert(identity(facts[a]) != identity(facts[b]));
        }
        ids.unique_seq_to_set();
    }
}

/// The row's identifier is present and is an `i32`.
pub open spec fn id_valid(header: Seq<Seq<char>>, row: Seq<Seq<char>>, metadata: UploadMetadata) -> bool {
    cell(header, row, metadata.id_column@) matches Some(t) && parse_i32(t) is Some
}

/// The row's year is present, is an `i32`, and is one the calendar has.
pub open spec fn year_valid(header: Seq<Seq<char>>, row: Seq<Seq<char>>, metadata: UploadMetadata) -> bool {
    cell(header, row, metadata.date_column@) matches Some(t) && parse_i32(t) matches Some(y)
        && year_in_range(y as int)
}

/// Every data column the metadata names is present in `row` under `header`.
pub open spec fn has_all_data_columns(
    header: Seq<Seq<char>>,
    row: Seq<Seq<char>>,
    columns: Seq<Seq<char>>,
) -> bool {
    forall|j: int| 0 <= j < columns.len() ==> cell(header, row, #[trigger] columns[j]) is Some
}

proof fn lemma_cells_extend_or_repeat(
    facts: Seq<Fact>,
    header: Seq<Seq<char>>,
    row: Seq<Seq<char>>,
    i: int,
    id: i32,
    year: i32,
    columns: Seq<Seq<char>>,
    k: int,
)
    requires
        k <= columns.len(),
        has_all_data_columns(header, row, columns),
    ensures
        match cells_outcome(facts, header, row, i, id, year, columns, k) {
            Ok(fs) => fs.len() >= facts.len() && fs.subrange(0, facts.len() as int) == facts,
            Err(e) => e matches RowFailure::DuplicateDataInCsv { row, .. } && row == i,
        },
    decreases k,
{
    if k > 0 {
        lemma_cells_extend_or_repeat(facts, header, row, i, id, year, columns, k - 1);
        assert(cell(header, row, columns[k - 1]) is Some);
        if let Ok(fs) = cells_outcome(facts, header, row, i, id, year, columns, k - 1) {
            if let Ok(fs2) = cell_step(fs, header, row, i, id, year, columns[k - 1]) {
                if fs2 != fs {
                    assert(fs2.subrange(0, facts.len() as int) =~= fs.subrange(
                        0,
                        facts.len() as int,
                    ));
                }
            }
        }
    }
}

/// Row `b`, reached with the facts of the rows before it, has a measured
/// cell with the coordinates of one of those facts.
proof fn lemma_repeat_of_earlier_fact_reported(
    records: Seq<Seq<Seq<char>>>,
    metadata: UploadMetadata,
    b: int,
    k: int,
)
    requires
        0 <= b,
        b + 1 < records.len(),
        rows_outcome(records, metadata, b) is Ok,
        id_valid(records[0], records[b + 1], metadata),
        year_valid(records[0], records[b + 1], metadata),
        has_all_data_columns(records[0], records[b + 1], metadata.data_columns()),
        0 <= k < metadata.data_columns().len(),
        cell(records[0], records[b + 1], metadata.data_columns()[k]) matches Some(v) && is_float_text(
            v,
        ) && has_identity(
            rows_outcome(records, metadata, b)->Ok_0,
            fact_of(
                metadata.data_columns()[k],
                parse_i32(cell(records[0], records[b + 1], metadata.date_column@)->Some_0)->Some_0,
                parse_i32(cell(records[0], records[b + 1], metadata.id_column@)->Some_0)->Some_0,
                v,
            ),
        ),
    ensures
        parse_outcome(records, metadata) matches Err(RowFailure::DuplicateDataInCsv { row, .. })
            && row == b,
{
    let header = records[0];
    let row = records[b + 1];
    let facts = rows_outcome(records, metadata, b)->Ok_0;
    let cols = metadata.data_columns();
    let id = parse_i32(cell(header, row, metadata.id_column@)->Some_0)->Some_0;
    let year = parse_i32(cell(header, row, metadata.date_column@)->Some_0)->Some_0;
    lemma_cells_extend_or_repeat(facts, header, row, b, id, year, cols, k);
    lemma_cells_extend_or_repeat(facts, header, row, b, id, year, cols, cols.len() as int);
    let v = cell(header, row, cols[k])->Some_0;
    if let Ok(fs) = cells_outcome(facts, header, row, b, id, year, cols, k) {
        let f = fact_of(cols[k], year, id, v);
        let j = choose|j: int| 0 <= j < facts.len() && identity(#[trigger] facts[j]) == identity(f);
        assert(fs[j] == fs.subrange(0, facts.len() as int)[j]);
        assert(has_identity(fs, f));
        assert(cells_outcome(facts, header, row, b, id, year, cols, k + 1) == cell_step(
            fs,
            header,
            row,
            b,
            id,
            year,
            cols[k],
        ));
        lemma_cells_err_sticks(facts, header, row, b, id, year, cols, k + 1, cols.len() as int);
    } else {
        lemma_cells_err_sticks(facts, header, row, b, id, year, cols, k, cols.len() as int);
    }
    assert(row_outcome(facts, header, row, b, metadata) == cells_outcome(
        facts,
        header,
        row,
        b,
        id,
        year,
        cols,
        cols.len() as int,
    ));
    assert(rows_outcome(records, metadata, b + 1) == row_outcome(facts, header, row, b, metadata));
    assert(rows_outcome(records, metadata, b + 1) is Err);
    lemma_rows_err_sticks(records, metadata, b + 1, records.len() - 1);
}

/// A column the metadata names that the header lacks makes the parse fail
/// with `MissingColumn` naming that column at the first data row.
///
/// The other named columns are present, and the first row's identifier (and,
/// where the absent column is a data column, its year) are valid, so that
/// nothing else is reported first.
pub proof fn law_absent_column_reported(
    records: Seq<Seq<Seq<char>>>,
    metadata: UploadMetadata,
    c: Seq<char>,
)
    requires
        metadata.columns_distinct(),
        records.len() >= 2,
        column_index(records[0], c) is None,
        c == metadata.id_column@ || c == metadata.date_column@ || metadata.data_columns().contains(c),
        c != metadata.id_column@ ==> id_valid(records[0], records[1], metadata),
        c != metadata.id_column@ && c != metadata.date_column@ ==> year_valid(
            records[0],
            records[1],
            metadata,
        ),
        forall|j: int|
            0 <= j < metadata.data_columns().len() && metadata.data_columns()[j] != c ==> cell(
                records[0],
                records[1],
                #[trigger] metadata.data_columns()[j],
            ) is Some,
    ensures
        parse_outcome(records, metadata) == Err::<Seq<Fact>, RowFailure>(
            RowFailure::MissingColumn { column: c, row: 0 },
        ),
{
    let header = records[0];
    let row = records[1];
    let cols = metadata.data_columns();
    assert(cell(header, row, c) is None);
    if c != metadata.id_column@ && c != metadata.date_column@ {
        let k = cols.index_of(c);
        assert(0 <= k < cols.len() && cols[k] == c);
        let id = parse_i32(cell(header, row, metadata.id_column@)->Some_0)->Some_0;
        let year = parse_i32(cell(header, row, metadata.date_column@)->Some_0)->Some_0;
        assert forall|j: int| 0 <= j < k implies cell(header, row, #[trigger] cols[j]) is Some by {
            assert(cols[j] != cols[k]);
        }
        lemma_cells_before_absent(header, row, id, year, cols, k, k);
        let fs = cells_outcome(Seq::empty(), header, row, 0, id, year, cols, k)->Ok_0;
        assert(cells_outcome(Seq::empty(), header, row, 0, id, year, cols, k + 1) == cell_step(
            fs,
            header,
            row,
            0,
            id,
            year,
            cols[k],
        ));
        lemma_cells_err_sticks(
            Seq::empty(),
            header,
            row,
            0,
            id,
            year,
            cols,
            k + 1,
            cols.len() as int,
        );
    }
    assert(rows_outcome(records, metadata, 0) == Ok::<Seq<Fact>, RowFailure>(Seq::empty()));
    assert(rows_outcome(records, metadata, 1) == row_outcome(Seq::empty(), header, row, 0, metadata));
    assert(rows_outcome(records, metadata, 1) is Err);
    lemma_rows_err_sticks(records, metadata, 1, records.len() - 1);
}

/// Before the absent column `columns[k]`, the first row's cells give facts of
/// earlier columns only, so none of them repeats.
proof fn lemma_cells_before_absent(
    header: Seq<Seq<char>>,
    row: Seq<Seq<char>>,
    id: i32,
    year: i32,
    columns: Seq<Seq<char>>,
    k: int,
    m: int,
)
    requires
        columns.no_duplicates(),
        0 <= m <= k < columns.len(),
        forall|j: int| 0 <= j < k ==> cell(header, row, #[trigger] columns[j]) is Some,
    ensures
        cells_outcome(Seq::empty(), header, row, 0, id, year, columns, m) matches Ok(fs) && forall|
            a: int,
        |
            0 <= a < fs.len() ==> exists|j: int|
                0 <= j < m && (#[trigger] fs[a]).dataset == columns[j],
    decreases m,
{
    if m > 0 {
        lemma_cells_before_absent(header, row, id, year, columns, k, m - 1);
        let fs = cells_outcome(Seq::empty(), header, row, 0, id, year, columns, m - 1)->Ok_0;
        let c = columns[m - 1];
        let text = cell(header, row, c)->Some_0;
        let f = fact_of(c, year, id, text);
        if has_identity(fs, f) {
            let a = choose|a: int| 0 <= a < fs.len() && identity(#[trigger] fs[a]) == identity(f);
            let j = choose|j: int| 0 <= j < m - 1 && (#[trigger] fs[a]).dataset == columns[j];
            assert(columns[j] == columns[m - 1]);
        }
        let out = cells_outcome(Seq::empty(), header, row, 0, id, year, columns, m)->Ok_0;
        assert forall|a: int| 0 <= a < out.len() implies exists|j: int|
            0 <= j < m && (#[trigger] out[a]).dataset == columns[j] by {
            if a < fs.len() {
                assert(out[a] == fs[a]);
                let j = choose|j: int| 0 <= j < m - 1 && (#[trigger] fs[a]).dataset == columns[j];
                assert(out[a].dataset == columns[j]);
            } else {
                assert(out[a].dataset == columns[m - 1]);
            }
        }
    }
}

/// An answer naming stored datasets that the declared ones repeat ends the
/// upload with `DuplicateDatasets` listing all of them; while datasets are
/// being checked nothing has been created, and no answer at that stage leads
/// to a write.
pub proof fn law_duplicate_datasets_stop_before_writes(
    old: Upload,
    event: Event,
    new: Upload,
    a: Action,
)
    requires
        old.wf(),
        old.stage is CheckingDatasets,
        transition(old, event, new, a),
    ensures
        old.created.len() == 0,
        old.existing.len() == 0,
        !writes(a),
        match event {
            Event::DuplicateDatasets(found) => found.len() > 0 ==> a == Action::Abort(
                UploadError::DuplicateDatasets(found),
            ) && new.stage is Failed,
            _ => true,
        },
{
}

/// After the dataset check passes, the registry is asked about each
/// referenced identifier once; an answer naming identifiers it lacks ends the
/// upload with `InvalidGeoIds` listing exactly those, and nothing is
/// written.
pub proof fn law_invalid_geo_ids_reported(old: Upload, event: Event, new: Upload, a: Action)
    requires
        old.wf(),
        transition(old, event, new, a),
    ensures
        old.stage is CheckingDatasets ==> match event {
            Event::DuplicateDatasets(found) => found.len() == 0 ==> (a matches Action::FindInvalidGeoIds(
                ids,
            ) && lists_referenced_ids(ids@, old.facts@, old.metadata.geography_type)),
            _ => true,
        },
        old.stage is CheckingGeoIds ==> match event {
            Event::InvalidGeoIds(found) => found.len() > 0 ==> a == Action::Abort(
                UploadError::InvalidGeoIds(found),
            ) && !writes(a),
            _ => true,
        },
{
}

/// Rows are inserted only after the store reports that none of their
/// coordinates are stored; a stored fact with the coordinates of a row ends
/// the upload with `DuplicateDataInStore` citing it. So uploading a file
/// whose facts are already stored fails rather than inserting them again.
pub proof fn law_stored_duplicates_refused(old: Upload, event: Event, new: Upload, a: Action)
    requires
        old.wf(),
        transition(old, event, new, a),
    ensures
        a is Insert ==> old.stage is CheckingStore && event == Event::StoredDuplicate(
            None::<Creator>,
        ),
        old.stage is CheckingStore ==> match event {
            Event::StoredDuplicate(Some(row)) => a == Action::Abort(
                UploadError::DuplicateDataInStore(row),
            ),
            _ => true,
        },
{
}

/// The count an upload commits is the number of facts it was started with:
/// one row per fact, none dropped by the join with resolved datasets.
pub proof fn law_commit_counts_every_fact(old: Upload, event: Event, new: Upload, a: Action)
    requires
        old.wf(),
        transition(old, event, new, a),
        a is Commit,
    ensures
        old.stage is Inserting,
        a->Commit_0 == old.facts.len(),
{
}

/// For facts parsed from a file, the count an upload commits is the number of
/// distinct coordinates the file holds under the metadata.
pub proof fn law_inserted_count_is_distinct_facts(
    records: Seq<Seq<Seq<char>>>,
    metadata: UploadMetadata,
    old: Upload,
    event: Event,
    new: Upload,
    a: Action,
)
    requires
        parse_outcome(records, metadata) is Ok,
        facts_view(old.facts@) == parse_outcome(records, metadata)->Ok_0,
        old.wf(),
        transition(old, event, new, a),
        a is Commit,
    ensures
        a->Commit_0 == parse_outcome(records, metadata)->Ok_0.map_values(|f: Fact| identity(f)).to_set().len(),
{
    law_parsed_facts_distinct(records, metadata);
    law_commit_counts_every_fact(old, event, new, a);
}

proof fn lemma_cells_prefix(
    facts: Seq<Fact>,
    header: Seq<Seq<char>>,
    row: Seq<Seq<char>>,
    i: int,
    id: i32,
    year: i32,
    columns: Seq<Seq<char>>,
    k: int,
)
    ensures
        cells_outcome(facts, header, row, i, id, year, columns, k) matches Ok(fs) ==> fs.len()
            >= facts.len() && fs.subrange(0, facts.len() as int) == facts,
    decreases k,
{
    if k > 0 {
        lemma_cells_prefix(facts, header, row, i, id, year, columns, k - 1);
        if let Ok(fs) = cells_outcome(facts, header, row, i, id, year, columns, k - 1) {
            if let Ok(fs2) = cell_step(fs, header, row, i, id, year, columns[k - 1]) {
                if fs2 != fs {
                    assert(fs2.subrange(0, facts.len() as int) =~= fs.subrange(
                        0,
                        facts.len() as int,
                    ));
                }
            }
        }
    }
}

/// The facts of the first `m` rows begin the facts of the first `n`.
proof fn lemma_rows_prefix(records: Seq<Seq<Seq<char>>>, metadata: UploadMetadata, m: int, n: int)
    requires
        0 <= m <= n,
        rows_outcome(records, metadata, n) is Ok,
    ensures
        rows_outcome(records, metadata, m) is Ok,
        rows_outcome(records, metadata, n)->Ok_0.len() >= rows_outcome(records, metadata, m)->Ok_0.len(),
        rows_outcome(records, metadata, n)->Ok_0.subrange(
            0,
            rows_outcome(records, metadata, m)->Ok_0.len() as int,
        ) == rows_outcome(records, metadata, m)->Ok_0,
    decreases n - m,
{
    if m < n {
        assert(rows_outcome(records, metadata, n - 1) is Ok);
        lemma_rows_prefix(records, metadata, m, n - 1);
        let fm = rows_outcome(records, metadata, m)->Ok_0;
        let f1 = rows_outcome(records, metadata, n - 1)->Ok_0;
        let f2 = rows_outcome(records, metadata, n)->Ok_0;
        let header = records[0];
        let row = records[n];
        let id = parse_i32(cell(header, row, metadata.id_column@)->Some_0)->Some_0;
        let year = parse_i32(cell(header, row, metadata.date_column@)->Some_0)->Some_0;
        lemma_cells_prefix(
            f1,
            header,
            row,
            n - 1,
            id,
            year,
            metadata.data_columns(),
            metadata.data_columns().len() as int,
        );
        assert(f2.subrange(0, fm.len() as int) =~= f2.subrange(0, f1.len() as int).subrange(
            0,
            fm.len() as int,
        ));
    } else {
        assert(rows_outcome(records, metadata, n)->Ok_0.subrange(
            0,
            rows_outcome(records, metadata, n)->Ok_0.len() as int,
        ) =~= rows_outcome(records, metadata, n)->Ok_0);
    }
}

/// A parsed row keeps, among the facts, one with the coordinates of each of
/// its measured cells.
proof fn lemma_row_keeps_cell(
    facts: Seq<Fact>,
    header: Seq<Seq<char>>,
    row: Seq<Seq<char>>,
    i: int,
    metadata: UploadMetadata,
    k: int,
)
    requires
        id_valid(header, row, metadata),
        year_valid(header, row, metadata),
        0 <= k < metadata.data_columns().len(),
        cell(header, row, metadata.data_columns()[k]) matches Some(v) && is_float_text(v),
        row_outcome(facts, header, row, i, metadata) is Ok,
    ensures
        has_identity(
            row_outcome(facts, header, row, i, metadata)->Ok_0,
            fact_of(
                metadata.data_columns()[k],
                parse_i32(cell(header, row, metadata.date_column@)->Some_0)->Some_0,
                parse_i32(cell(header, row, metadata.id_column@)->Some_0)->Some_0,
                cell(header, row, metadata.data_columns()[k])->Some_0,
            ),
        ),
{
    let cols = metadata.data_columns();
    let id = parse_i32(cell(header, row, metadata.id_column@)->Some_0)->Some_0;
    let year = parse_i32(cell(header, row, metadata.date_column@)->Some_0)->Some_0;
    let v = cell(header, row, cols[k])->Some_0;
    let f = fact_of(cols[k], year, id, v);
    assert(row_outcome(facts, header, row, i, metadata) == cells_outcome(
        facts,
        header,
        row,
        i,
        id,
        year,
        cols,
        cols.len() as int,
    ));
    if cells_outcome(facts, header, row, i, id, year, cols, k + 1) is Err {
        lemma_cells_err_sticks(facts, header, row, i, id, year, cols, k + 1, cols.len() as int);
    }
    if cells_outcome(facts, header, row, i, id, year, cols, k) is Err {
        lemma_cells_err_sticks(facts, header, row, i, id, year, cols, k, k + 1);
    }
    let fk = cells_outcome(facts, header, row, i, id, year, cols, k)->Ok_0;
    let fk1 = cells_outcome(facts, header, row, i, id, year, cols, k + 1)->Ok_0;
    assert(fk1 == fk.push(f));
    assert(fk1[fk.len() as int] == f);
    assert(has_identity(fk1, f));
    lemma_cells_tail_prefix(facts, header, row, i, id, year, cols, k + 1, cols.len() as int);
    let out = row_outcome(facts, header, row, i, metadata)->Ok_0;
    assert(out[fk.len() as int] == fk1[fk.len() as int]);
}

/// Later columns only add facts after those of earlier ones.
proof fn lemma_cells_tail_prefix(
    facts: Seq<Fact>,
    header: Seq<Seq<char>>,
    row: Seq<Seq<char>>,
    i: int,
    id: i32,
    year: i32,
    columns: Seq<Seq<char>>,
    k: int,
    m: int,
)
    requires
        0 <= k <= m,
        cells_outcome(facts, header, row, i, id, year, columns, m) is Ok,
    ensures
        cells_outcome(facts, header, row, i, id, year, columns, k) is Ok,
        ({
            let a = cells_outcome(facts, header, row, i, id, year, columns, k)->Ok_0;
            let b = cells_outcome(facts, header, row, i, id, year, columns, m)->Ok_0;
            b.len() >= a.len() && b.subrange(0, a.len() as int) == a
        }),
    decreases m - k,
{
    if k < m {
        assert(cells_outcome(facts, header, row, i, id, year, columns, m - 1) is Ok);
        lemma_cells_tail_prefix(facts, header, row, i, id, year, columns, k, m - 1);
        let a = cells_outcome(facts, header, row, i, id, year, columns, k)->Ok_0;
        let b1 = cells_outcome(facts, header, row, i, id, year, columns, m - 1)->Ok_0;
        let b = cells_outcome(facts, header, row, i, id, year, columns, m)->Ok_0;
        if b != b1 {
            assert(b.subrange(0, a.len() as int) =~= b1.subrange(0, a.len() as int));
        }
    } else {
        let a = cells_outcome(facts, header, row, i, id, year, columns, k)->Ok_0;
        assert(a.subrange(0, a.len() as int) =~= a);
    }
}

/// Two rows with the same identifier and year and a measured cell in the
/// same data column (whatever the two values) make the whole parse fail with
/// `DuplicateDataInCsv` citing the later row.
///
/// The rows before the later row `b` parse, and that row has every data
/// column, so that nothing else is reported first.
pub proof fn law_repeated_coordinates_reported(
    records: Seq<Seq<Seq<char>>>,
    metadata: UploadMetadata,
    a: int,
    b: int,
    k: int,
)
    requires
        0 <= a < b,
        b + 1 < records.len(),
        rows_outcome(records, metadata, b) is Ok,
        id_valid(records[0], records[a + 1], metadata),
        year_valid(records[0], records[a + 1], metadata),
        id_valid(records[0], records[b + 1], metadata),
        year_valid(records[0], records[b + 1], metadata),
        parse_i32(cell(records[0], records[a + 1], metadata.id_column@)->Some_0) == parse_i32(
            cell(records[0], records[b + 1], metadata.id_column@)->Some_0,
        ),
        parse_i32(cell(records[0], records[a + 1], metadata.date_column@)->Some_0) == parse_i32(
            cell(records[0], records[b + 1], metadata.date_column@)->Some_0,
        ),
        has_all_data_columns(records[0], records[b + 1], metadata.data_columns()),
        0 <= k < metadata.data_columns().len(),
        cell(records[0], records[a + 1], metadata.data_columns()[k]) matches Some(v)
            && is_float_text(v),
        cell(records[0], records[b + 1], metadata.data_columns()[k]) matches Some(w)
            && is_float_text(w),
    ensures
        parse_outcome(records, metadata) matches Err(RowFailure::DuplicateDataInCsv { row, .. })
            && row == b,
{
    let header = records[0];
    let cols = metadata.data_columns();
    lemma_rows_prefix(records, metadata, a + 1, b);
    lemma_rows_prefix(records, metadata, a, b);
    let fa = rows_outcome(records, metadata, a)->Ok_0;
    let fa1 = rows_outcome(records, metadata, a + 1)->Ok_0;
    let fb = rows_outcome(records, metadata, b)->Ok_0;
    assert(fa1 == row_outcome(fa, header, records[a + 1], a, metadata)->Ok_0);
    lemma_row_keeps_cell(fa, header, records[a + 1], a, metadata, k);
    let id = parse_i32(cell(header, records[b + 1], metadata.id_column@)->Some_0)->Some_0;
    let year = parse_i32(cell(header, records[b + 1], metadata.date_column@)->Some_0)->Some_0;
    let v = cell(header, records[a + 1], cols[k])->Some_0;
    let w = cell(header, records[b + 1], cols[k])->Some_0;
    let j = choose|j: int| 0 <= j < fa1.len() && identity(#[trigger] fa1[j]) == identity(
        fact_of(cols[k], year, id, v),
    );
    assert(fb[j] == fb.subrange(0, fa1.len() as int)[j]);
    assert(identity(fact_of(cols[k], year, id, v)) == identity(fact_of(cols[k], year, id, w)));
    assert(has_identity(fb, fact_of(cols[k], year, id, w)));
    lemma_repeat_of_earlier_fact_reported(records, metadata, b, k);
}

} // verus!
