//! Requests and answers of the operations offered to callers, and the
//! decisions that those operations make on plain values.

use vstd::prelude::*;
use crate::excel::{columns_of_strings, strings_view};
use crate::fields::{pairs_view, RowCell};
use crate::models::opt_text;
use crate::text::{is_blank, str_chars, trim_chars};

verus! {

/// Whether a file can be used, and why not.
#[derive(Debug, PartialEq, Eq)]
pub struct ValidationResult {
    pub valid: bool,
    pub error: Option<String>,
}

/// Whether a schema was found in the cache, and the schema.
#[derive(Debug, PartialEq, Eq)]
pub struct ExcelSchemaResponse {
    pub cached: bool,
    pub schema_json: Option<String>,
    pub file_bytes: Option<String>,
}

/// The analysis of a sheet for the mapping view.
#[derive(Debug, PartialEq, Eq)]
pub struct AnalyzedExcelSchema {
    pub worksheet_name: String,
    pub headers: Vec<String>,
    pub column_samples: Vec<Vec<String>>,
    pub last_data_row: u32,
    pub schema_hash: String,
}

/// A request to append one row of cells to a sheet.
#[derive(Debug, PartialEq, Eq)]
pub struct AppendRowPayload {
    pub path: String,
    pub sheet: String,
    pub row: Vec<RowCell>,
}

/// A request for sample values of a sheet's columns.
#[derive(Debug, PartialEq, Eq)]
pub struct GetColumnSamplesPayload {
    pub path: String,
    pub sheet: String,
    pub header_row: Option<u32>,
    pub max_rows: Option<usize>,
}

/// The largest document that is accepted, in bytes.
pub const MAX_DOCUMENT_BYTES: u64 = 52428800;

/// The largest workbook that is accepted, in bytes.
pub const MAX_WORKBOOK_BYTES: u64 = 104857600;

/// Sample rows where a request names no number.
pub const DEFAULT_SAMPLE_ROWS: usize = 10;

/// The first bytes of a PDF document: `%PDF-`.
pub open spec fn pdf_magic() -> Seq<u8> {
    seq![0x25u8, 0x50u8, 0x44u8, 0x46u8, 0x2Du8]
}

/// The first bytes of a zipped workbook: `PK`, 3, 4.
pub open spec fn zip_magic() -> Seq<u8> {
    seq![0x50u8, 0x4Bu8, 0x03u8, 0x04u8]
}

/// `bytes` begins with `prefix`.
pub open spec fn starts_with(bytes: Seq<u8>, prefix: Seq<u8>) -> bool {
    prefix.len() <= bytes.len() && bytes.subrange(0, prefix.len() as int) == prefix
}

/// Why a document cannot be used, `None` where it can: it is missing, larger
/// than 50 MB, shorter than its first five bytes, or does not begin as a PDF.
pub open spec fn document_fault(exists: bool, size: u64, header: Seq<u8>) -> Option<Seq<char>> {
    if !exists {
        Some("File not found."@)
    } else if size > MAX_DOCUMENT_BYTES {
        Some("File too large (max 50MB)."@)
    } else if header.len() < 5 {
        Some("Not a valid PDF (could not read header)."@)
    } else if !starts_with(header, pdf_magic()) {
        Some("Not a valid PDF file."@)
    } else {
        None
    }
}

/// Why a workbook cannot be used, `None` where it can: it is missing, larger
/// than 100 MB, shorter than its first four bytes, does not begin as a zip
/// archive, or cannot be opened for writing.
pub open spec fn workbook_fault(
    exists: bool,
    size: u64,
    header: Seq<u8>,
    write_denied: bool,
) -> Option<Seq<char>> {
    if !exists {
        Some("File not found."@)
    } else if size > MAX_WORKBOOK_BYTES {
        Some("File too large (max 100MB)."@)
    } else if header.len() < 4 {
        Some("Not a valid Excel file (could not read header)."@)
    } else if header != zip_magic() {
        Some("Not a valid Excel file (.xlsx)."@)
    } else if write_denied {
        Some("Excel file is open. Please close it and try again."@)
    } else {
        None
    }
}

fn invalid(reason: &str) -> (r: ValidationResult)
    ensures
        !r.valid,
        opt_text(r.error) == Some(reason@),
{
    ValidationResult { valid: false, error: Some(reason.to_owned()) }
}

/// Decides whether a document can be scanned, from whether the file exists,
/// its size and the bytes read from its start (up to eight).
pub fn validate_document_file(exists: bool, size: u64, header: &Vec<u8>) -> (r: ValidationResult)
    ensures
        opt_text(r.error) == document_fault(exists, size, header@),
        r.valid == (document_fault(exists, size, header@) is None),
{
    if !exists {
        return invalid("File not found.");
    }
    if size > MAX_DOCUMENT_BYTES {
        return invalid("File too large (max 50MB).");
    }
    if header.len() < 5 {
        return invalid("Not a valid PDF (could not read header).");
    }
    let begins = header[0] == 0x25 && header[1] == 0x50 && header[2] == 0x44 && header[3] == 0x46
        && header[4] == 0x2D;
    proof {
        let head = header@.subrange(0, 5);
        if begins {
            assert(head =~= pdf_magic());
        } else {
            assert(head[0] == header@[0] && head[1] == header@[1] && head[2] == header@[2]
                && head[3] == header@[3] && head[4] == header@[4]);
        }
    }
    if !begins {
        return invalid("Not a valid PDF file.");
    }
    ValidationResult { valid: true, error: None }
}

/// Decides whether a workbook can be appended to, from whether the file
/// exists, its size, the bytes read from its start (up to four) and whether
/// opening it for writing was denied.
pub fn validate_excel_file(exists: bool, size: u64, header: &Vec<u8>, write_denied: bool) -> (r:
    ValidationResult)
    ensures
        opt_text(r.error) == workbook_fault(exists, size, header@, write_denied),
        r.valid == (workbook_fault(exists, size, header@, write_denied) is None),
{
    if !exists {
        return invalid("File not found.");
    }
    if size > MAX_WORKBOOK_BYTES {
        return invalid("File too large (max 100MB).");
    }
    if header.len() < 4 {
        return invalid("Not a valid Excel file (could not read header).");
    }
    let begins = header.len() == 4 && header[0] == 0x50 && header[1] == 0x4B && header[2] == 0x03
        && header[3] == 0x04;
    proof {
        if begins {
            assert(header@ =~= zip_magic());
        }
    }
    if !begins {
        return invalid("Not a valid Excel file (.xlsx).");
    }
    if write_denied {
        return invalid("Excel file is open. Please close it and try again.");
    }
    ValidationResult { valid: true, error: None }
}

/// Answers a request for a cached schema: the schema where the cache holds
/// one, and never the file's bytes.
pub fn get_excel_schema(cached: Option<String>) -> (r: ExcelSchemaResponse)
    ensures
        r.cached == cached is Some,
        r.schema_json == cached,
        r.file_bytes is None,
{
    match cached {
        Some(schema_json) => ExcelSchemaResponse {
            cached: true,
            schema_json: Some(schema_json),
            file_bytes: None,
        },
        None => ExcelSchemaResponse { cached: false, schema_json: None, file_bytes: None },
    }
}

/// The columns and values of a list of row cells.
pub open spec fn cells_view(cells: Seq<RowCell>) -> Seq<(Seq<char>, Seq<char>)> {
    Seq::new(cells.len(), |i: int| (cells[i].column@, cells[i].value@))
}

/// The cells of a request as pairs of column letters and value, in order.
pub fn row_cells_to_pairs(row: Vec<RowCell>) -> (pairs: Vec<(String, String)>)
    ensures
        pairs_view(pairs@) == cells_view(row@),
{
    let mut pairs: Vec<(String, String)> = Vec::new();
    let mut i: usize = 0;
    while i < row.len()
        invariant
            i <= row@.len(),
            pairs@.len() == i,
            forall|k: int|
                0 <= k < i ==> (#[trigger] pairs@[k]).0@ == row@[k].column@ && pairs@[k].1@
                    == row@[k].value@,
        decreases row.len() - i,
    {
        pairs.push((row[i].column.clone(), row[i].value.clone()));
        i += 1;
    }
    assert(pairs_view(pairs@) =~= cells_view(row@));
    pairs
}

/// The number of rows to sample for a request: ten where it names none.
pub fn sample_row_count(payload: &GetColumnSamplesPayload) -> (max_rows: usize)
    ensures
        max_rows == match payload.max_rows {
            Some(n) => n,
            None => DEFAULT_SAMPLE_ROWS,
        },
{
    match payload.max_rows {
        Some(n) => n,
        None => DEFAULT_SAMPLE_ROWS,
    }
}

/// The header row of a request for headers: row 1 for anything below it.
pub fn header_row_or_first(header_row: i32) -> (row: u32)
    ensures
        row == if header_row < 1 {
            1
        } else {
            header_row as int
        },
{
    if header_row < 1 {
        1
    } else {
        header_row as u32
    }
}

/// Wraps the parts of an analysis into the answer to the caller.
pub fn analyzed_schema(parts: (String, Vec<String>, Vec<Vec<String>>, u32, String)) -> (r:
    AnalyzedExcelSchema)
    ensures
        r.worksheet_name@ == parts.0@,
        strings_view(r.headers@) == strings_view(parts.1@),
        columns_of_strings(r.column_samples@) == columns_of_strings(parts.2@),
        r.last_data_row == parts.3,
        r.schema_hash@ == parts.4@,
{
    let (worksheet_name, headers, column_samples, last_data_row, schema_hash) = parts;
    AnalyzedExcelSchema { worksheet_name, headers, column_samples, last_data_row, schema_hash }
}

/// A setting is given when it is there and not blank.
pub open spec fn is_given(setting: Option<&str>) -> bool {
    match setting {
        Some(value) => !is_blank(value@),
        None => false,
    }
}

fn given(setting: Option<&str>) -> (b: bool)
    ensures
        b == is_given(setting),
{
    match setting {
        Some(value) => {
            let chars = str_chars(value);
            trim_chars(&chars).len() > 0
        },
        None => false,
    }
}

/// Says whether the document reader is configured: it is when both its key
/// and its endpoint are given.
pub fn get_azure_status(key: Option<&str>, endpoint: Option<&str>) -> (status: String)
    ensures
        status@ == if is_given(key) && is_given(endpoint) {
            "configured"@
        } else {
            "not_configured"@
        },
{
    if given(key) && given(endpoint) {
        "configured".to_owned()
    } else {
        "not_configured".to_owned()
    }
}

} // verus!
