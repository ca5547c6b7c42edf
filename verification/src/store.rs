//! What the durable store keeps of a schema's row bookkeeping, and how the
//! row pointer is advanced in it.
//!
//! The store itself is a relational database that the library's user runs.
//! Here stand the values that go into it and come out of it: the store keeps
//! signed 64-bit integers.

use vstd::prelude::*;
use vstd::string::StringExecFns;
use crate::allocator::after_append;
use crate::models::{
    columns_view, headers_view, ColumnFormat, ExcelSchema, ExcelSchemaView, HeaderInfo,
    RowTemplate,
};

verus! {

/// The row that the store keeps for a profile's schema.
#[derive(Clone, Copy, Debug, PartialEq, Eq, Structural)]
pub struct SchemaRecord {
    pub profile_id: i64,
    pub header_row: i64,
    pub first_data_row: i64,
    pub last_data_row: i64,
    pub next_free_row: i64,
    pub total_rows: i64,
    pub total_columns: i64,
    pub file_size: i64,
    pub file_mtime: i64,
}

/// The new row pointers of a profile's schema.
#[derive(Clone, Copy, Debug, PartialEq, Eq, Structural)]
pub struct PointerUpdate {
    pub profile_id: i64,
    pub next_free_row: i64,
    pub last_data_row: i64,
}

/// One entry of the append-only log of row-pointer changes.
#[derive(Debug, PartialEq, Eq)]
pub struct ChangeRecord {
    pub profile_id: i64,
    pub reason: String,
    pub old_next_free_row: i64,
    pub new_next_free_row: i64,
}

/// The reason logged for an appended row.
pub open spec fn row_added() -> Seq<char> {
    "row_added"@
}

/// The row kept for a schema.
pub open spec fn record_of(profile_id: i64, schema: ExcelSchemaView) -> SchemaRecord {
    SchemaRecord {
        profile_id,
        header_row: schema.header_row as i64,
        first_data_row: schema.first_data_row as i64,
        last_data_row: schema.last_data_row as i64,
        next_free_row: schema.next_free_row as i64,
        total_rows: schema.total_rows as i64,
        total_columns: schema.total_columns as i64,
        file_size: schema.file_size as i64,
        file_mtime: schema.file_mtime as i64,
    }
}

/// The schema that a kept row stands for, with the headers, column formats
/// and row template kept beside it.
pub open spec fn schema_of(
    record: SchemaRecord,
    headers: Seq<crate::models::HeaderInfoView>,
    columns: Seq<crate::models::ColumnFormatView>,
    row_template: RowTemplate,
) -> ExcelSchemaView {
    ExcelSchemaView {
        header_row: record.header_row as u32,
        first_data_row: record.first_data_row as u32,
        last_data_row: record.last_data_row as u32,
        next_free_row: record.next_free_row as u32,
        total_rows: record.total_rows as u32,
        total_columns: record.total_columns as u16,
        headers,
        columns,
        row_template,
        file_size: record.file_size as u64,
        file_mtime: record.file_mtime as u64,
    }
}

/// The new row pointers after the row before `new_next_free_row` was
/// appended.
pub open spec fn pointer_update_of(profile_id: i64, new_next_free_row: u32) -> PointerUpdate {
    PointerUpdate {
        profile_id,
        next_free_row: new_next_free_row as i64,
        last_data_row: (new_next_free_row - 1) as i64,
    }
}

/// A kept row after a pointer update: only the two row pointers change.
pub open spec fn updated(record: SchemaRecord, update: PointerUpdate) -> SchemaRecord {
    SchemaRecord {
        next_free_row: update.next_free_row,
        last_data_row: update.last_data_row,
        ..record
    }
}

/// Makes the row that the store keeps for a schema.
pub fn save_excel_schema(profile_id: i64, schema: &ExcelSchema) -> (record: SchemaRecord)
    ensures
        record == record_of(profile_id, schema@),
{
    SchemaRecord {
        profile_id,
        header_row: schema.header_row as i64,
        first_data_row: schema.first_data_row as i64,
        last_data_row: schema.last_data_row as i64,
        next_free_row: schema.next_free_row as i64,
        total_rows: schema.total_rows as i64,
        total_columns: schema.total_columns as i64,
        file_size: #[verifier::truncate]
        (schema.file_size as i64),
        file_mtime: #[verifier::truncate]
        (schema.file_mtime as i64),
    }
}

/// Makes a schema of the row that the store kept for it and of the headers,
/// column formats and row template kept beside it.
pub fn load_excel_schema(
    record: &SchemaRecord,
    headers: Vec<HeaderInfo>,
    columns: Vec<ColumnFormat>,
    row_template: RowTemplate,
) -> (schema: ExcelSchema)
    ensures
        schema@ == schema_of(*record, headers_view(headers@), columns_view(columns@), row_template),
{
    ExcelSchema {
        header_row: #[verifier::truncate]
        (record.header_row as u32),
        first_data_row: #[verifier::truncate]
        (record.first_data_row as u32),
        last_data_row: #[verifier::truncate]
        (record.last_data_row as u32),
        next_free_row: #[verifier::truncate]
        (record.next_free_row as u32),
        total_rows: #[verifier::truncate]
        (record.total_rows as u32),
        total_columns: #[verifier::truncate]
        (record.total_columns as u16),
        headers,
        columns,
        row_template,
        file_size: #[verifier::truncate]
        (record.file_size as u64),
        file_mtime: #[verifier::truncate]
        (record.file_mtime as u64),
    }
}

/// Makes what the store writes in one transaction when a row was appended:
/// the new row pointers (the next free row, and the row before it as last
/// data row) and the log entry of the change.
pub fn update_excel_schema_next_free_row(
    profile_id: i64,
    new_next_free_row: u32,
    old_next_free_row: u32,
) -> (r: (PointerUpdate, ChangeRecord))
    requires
        new_next_free_row >= 1,
    ensures
        r.0 == pointer_update_of(profile_id, new_next_free_row),
        r.0.next_free_row == r.0.last_data_row + 1,
        r.1.profile_id == profile_id,
        r.1.reason@ == row_added(),
        r.1.old_next_free_row == old_next_free_row,
        r.1.new_next_free_row == new_next_free_row,
{
    (
        PointerUpdate {
            profile_id,
            next_free_row: new_next_free_row as i64,
            last_data_row: (new_next_free_row - 1) as i64,
        },
        ChangeRecord {
            profile_id,
            reason: "row_added".to_owned(),
            old_next_free_row: old_next_free_row as i64,
            new_next_free_row: new_next_free_row as i64,
        },
    )
}

/// A schema that is saved and loaded again is the same schema.
pub proof fn lemma_saved_schema_loads_unchanged(profile_id: i64, schema: ExcelSchemaView)
    ensures
        schema_of(record_of(profile_id, schema), schema.headers, schema.columns, schema.row_template)
            == schema,
{
    let a = schema.header_row;
    let b = schema.first_data_row;
    let c = schema.last_data_row;
    let d = schema.next_free_row;
    let e = schema.total_rows;
    let f = schema.total_columns;
    let g = schema.file_size;
    let h = schema.file_mtime;
    assert((a as i64) as u32 == a) by (bit_vector);
    assert((b as i64) as u32 == b) by (bit_vector);
    assert((c as i64) as u32 == c) by (bit_vector);
    assert((d as i64) as u32 == d) by (bit_vector);
    assert((e as i64) as u32 == e) by (bit_vector);
    assert((f as i64) as u16 == f) by (bit_vector);
    assert((g as i64) as u64 == g) by (bit_vector);
    assert((h as i64) as u64 == h) by (bit_vector);
}

/// After an append of row `row`, the store's updated row and the mirror's
/// updated schema are the same schema: both have `row` as last data row and
/// the row after it as next free row.
pub proof fn lemma_store_and_mirror_agree(profile_id: i64, schema: ExcelSchemaView, row: u32)
    requires
        row < u32::MAX,
    ensures
        schema_of(
            updated(record_of(profile_id, schema), pointer_update_of(profile_id, (row + 1) as u32)),
            schema.headers,
            schema.columns,
            schema.row_template,
        ) == after_append(schema, row),
        after_append(schema, row).next_free_row == after_append(schema, row).last_data_row + 1,
{
    lemma_saved_schema_loads_unchanged(profile_id, schema);
    let n = (row + 1) as u32;
    assert((n as i64) as u32 == n) by (bit_vector);
    assert((row as i64) as u32 == row) by (bit_vector);
}

/// Which history records a folder filter admits.
#[derive(Clone, Copy, Debug, PartialEq, Eq, Structural)]
pub enum FolderFilter {
    /// Every record.
    All,
    /// The records that lie in no folder.
    Uncategorized,
    /// The records of one folder.
    Folder(i64),
}

/// A query for history records: its text and the values bound to it, the
/// search pattern first.
#[derive(Debug, PartialEq, Eq)]
pub struct HistoryQuery {
    pub sql: String,
    pub pattern: Option<String>,
    pub folder: Option<i64>,
}

/// The folder filter that a folder id stands for: none admits every record,
/// -1 those that lie in no folder.
pub open spec fn folder_filter_of(folder_id: Option<i64>) -> FolderFilter {
    match folder_id {
        None => FolderFilter::All,
        Some(id) => if id == -1 {
            FolderFilter::Uncategorized
        } else {
            FolderFilter::Folder(id)
        },
    }
}

/// The columns that every history query selects.
pub open spec fn history_select() -> Seq<char> {
    "SELECT id, created_at, document_type, file_path_or_name, extracted_data, status, excel_profile_id, error_message FROM history"@
}

/// The condition of a history query, empty where every record is wanted.
pub open spec fn history_condition(searching: bool, filter: FolderFilter) -> Seq<char> {
    match (searching, filter) {
        (false, FolderFilter::All) => ""@,
        (true, FolderFilter::All) => " WHERE (file_path_or_name LIKE ?1 OR extracted_data LIKE ?1)"@,
        (false, FolderFilter::Uncategorized) => " WHERE folder_id IS NULL"@,
        (false, FolderFilter::Folder(_)) => " WHERE folder_id = ?1"@,
        (true, FolderFilter::Uncategorized) => " WHERE (file_path_or_name LIKE ?1 OR extracted_data LIKE ?1) AND folder_id IS NULL"@,
        (true, FolderFilter::Folder(_)) => " WHERE (file_path_or_name LIKE ?1 OR extracted_data LIKE ?1) AND folder_id = ?2"@,
    }
}

/// The text of a history query: newest records first.
pub open spec fn history_sql(searching: bool, filter: FolderFilter) -> Seq<char> {
    history_select() + history_condition(searching, filter) + " ORDER BY created_at DESC"@
}

/// The pattern that finds a text anywhere in a column.
pub open spec fn like_pattern(search: Seq<char>) -> Seq<char> {
    seq!['%'] + search + seq!['%']
}

fn folder_filter(folder_id: Option<i64>) -> (filter: FolderFilter)
    ensures
        filter == folder_filter_of(folder_id),
{
    match folder_id {
        None => FolderFilter::All,
        Some(id) => if id == -1 {
            FolderFilter::Uncategorized
        } else {
            FolderFilter::Folder(id)
        },
    }
}

/// Makes the query for history records that match a search text, if one is
/// given, and lie in the folder asked for.
pub fn get_history(search: Option<&str>, folder_id: Option<i64>) -> (query: HistoryQuery)
    ensures
        query.sql@ == history_sql(search is Some, folder_filter_of(folder_id)),
        match search {
            Some(s) => query.pattern is Some && query.pattern->0@ == like_pattern(s@),
            None => query.pattern is None,
        },
        query.folder == match folder_filter_of(folder_id) {
            FolderFilter::Folder(id) => Some(id),
            _ => None::<i64>,
        },
{
    let filter = folder_filter(folder_id);
    let condition: &str = match (search.is_some(), filter) {
        (false, FolderFilter::All) => "",
        (true, FolderFilter::All) => " WHERE (file_path_or_name LIKE ?1 OR extracted_data LIKE ?1)",
        (false, FolderFilter::Uncategorized) => " WHERE folder_id IS NULL",
        (false, FolderFilter::Folder(_)) => " WHERE folder_id = ?1",
        (true, FolderFilter::Uncategorized) => " WHERE (file_path_or_name LIKE ?1 OR extracted_data LIKE ?1) AND folder_id IS NULL",
        (true, FolderFilter::Folder(_)) => " WHERE (file_path_or_name LIKE ?1 OR extracted_data LIKE ?1) AND folder_id = ?2",
    };
    let mut sql = "SELECT id, created_at, document_type, file_path_or_name, extracted_data, status, excel_profile_id, error_message FROM history".to_owned();
    sql.append(condition);
    sql.append(" ORDER BY created_at DESC");
    let pattern = match search {
        Some(s) => {
            let mut p = String::new();
            crate::text::push_char(&mut p, '%');
            p.append(s);
            crate::text::push_char(&mut p, '%');
            assert(p@ =~= like_pattern(s@));
            Some(p)
        },
        None => None,
    };
    let folder = match filter {
        FolderFilter::Folder(id) => Some(id),
        _ => None,
    };
    HistoryQuery { sql, pattern, folder }
}

} // verus!
