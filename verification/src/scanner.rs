//! Structural scanning of one sheet: header row, headers, last data row,
//! column formats.
//!
//! Every function here is a function of the workbook's contents alone. The scan
//! is bounded: 20 rows and 20 columns for the header row, 50 columns for the
//! headers, 10,000 rows for the data.

use vstd::prelude::*;
use crate::letters::{column_index_to_letter, column_letters};
use crate::datatype::{data_type_of, detect_data_type};
use crate::models::{
    columns_view, headers_ordered, headers_view, ColumnFormat, ColumnFormatView, ExcelSchema,
    ExcelSchemaView, HeaderInfo, HeaderInfoView, Real, RowTemplate,
};
use crate::text::{
    chars_contain, contains_text, is_blank, lowercase_of, str_chars, string_from_chars,
    to_lowercase, trim_chars, trimmed,
};
use crate::workbook::{
    find_sheet, read_cell_fill, read_cell_font, read_cell_text, sheet_default_row_height,
    sheet_max_row, workbook_fills, workbook_fonts, workbook_max_rows, workbook_row_heights,
    sheet_of, sheet_text, workbook_sheets, workbook_texts, CellColor, Sheet, Workbook,
    WorkbookView,
};

verus! {

/// Why a scan failed.
#[derive(Clone, Copy, Debug, PartialEq, Eq, Structural)]
pub enum ScanError {
    /// The file or the sheet is missing.
    NotFound,
    /// The workbook cannot be read.
    ParseError,
    /// No header was found within the scan bounds.
    EmptySheet,
}

/// The short message shown for a failed scan.
pub open spec fn scan_error_text(error: ScanError) -> Seq<char> {
    match error {
        ScanError::NotFound => "File or worksheet not found"@,
        ScanError::ParseError => "Could not open Excel file"@,
        ScanError::EmptySheet => "No headers found"@,
    }
}

/// Says in a few words why a scan failed.
pub fn scan_error_message(error: ScanError) -> (message: String)
    ensures
        message@ == scan_error_text(error),
{
    match error {
        ScanError::NotFound => "File or worksheet not found".to_owned(),
        ScanError::ParseError => "Could not open Excel file".to_owned(),
        ScanError::EmptySheet => "No headers found".to_owned(),
    }
}

/// Rows and columns that header detection looks at.
pub const HEADER_SCAN_ROWS: u32 = 20;

/// Columns that the header-row and data-row scans look at.
pub const SCAN_COLUMNS: u32 = 20;

/// Columns that header extraction walks.
pub const HEADER_COLUMNS: u32 = 50;

/// Blank header cells in a row that end header extraction.
pub const HEADER_BLANK_RUN: u32 = 3;

/// Keyword cells that make a row the header row.
pub const HEADER_KEYWORD_CELLS: u32 = 3;

/// Rows below the header that the data scan looks at.
pub const DATA_SCAN_ROWS: u32 = 10000;

/// Empty rows in a row that end the data scan.
pub const DATA_BLANK_RUN: u32 = 100;

/// The document-domain terms that mark a header cell, in two languages.
pub open spec fn header_keywords() -> Seq<Seq<char>> {
    seq![
        "број"@,
        "number"@,
        "датум"@,
        "date"@,
        "продавач"@,
        "seller"@,
        "купувач"@,
        "buyer"@,
        "вкупно"@,
        "total"@,
        "износ"@,
        "amount"@,
        "тип"@,
        "type"@,
        "опис"@,
        "description"@,
        "ддв"@,
        "vat"@,
        "tax"@,
    ]
}

/// The text of a cell, empty where the cell is missing or has none.
pub open spec fn text_at(workbook: WorkbookView, sheet: Seq<char>, row: int, col: int) -> Seq<
    char,
> {
    if workbook_texts(workbook).contains_key((sheet, row, col)) {
        workbook_texts(workbook)[(sheet, row, col)]
    } else {
        Seq::empty()
    }
}

/// A cell text names a header when its lowercase form contains a keyword.
pub open spec fn is_keyword_text(text: Seq<char>) -> bool {
    exists|k: int|
        0 <= k < header_keywords().len() && contains_text(
            lowercase_of(text),
            #[trigger] header_keywords()[k],
        )
}

/// How many of the columns `1..=upto` of a row hold a keyword cell.
pub open spec fn keyword_cells(
    workbook: WorkbookView,
    sheet: Seq<char>,
    row: int,
    upto: int,
) -> nat
    decreases upto,
{
    if upto <= 0 {
        0
    } else {
        let rest = keyword_cells(workbook, sheet, row, upto - 1);
        if is_keyword_text(text_at(workbook, sheet, row, upto)) {
            rest + 1
        } else {
            rest
        }
    }
}

/// A row qualifies as header row when at least three of its first 20 cells
/// hold a keyword.
pub open spec fn is_header_row(workbook: WorkbookView, sheet: Seq<char>, row: int) -> bool {
    keyword_cells(workbook, sheet, row, SCAN_COLUMNS as int) >= HEADER_KEYWORD_CELLS
}

/// The first qualifying row among `from..=20`, or 1 where there is none.
pub open spec fn first_header_row(workbook: WorkbookView, sheet: Seq<char>, from: int) -> int
    decreases HEADER_SCAN_ROWS - from + 1,
{
    if from > HEADER_SCAN_ROWS {
        1
    } else if is_header_row(workbook, sheet, from) {
        from
    } else {
        first_header_row(workbook, sheet, from + 1)
    }
}

/// The header row of a sheet: the first of rows 1 to 20 that qualifies, row 1
/// where none does. A best-effort heuristic.
pub open spec fn header_row_of(workbook: WorkbookView, sheet: Seq<char>) -> int {
    first_header_row(workbook, sheet, 1)
}

/// The header row that detection reports lies within the rows it looks at.
pub proof fn lemma_header_row_in_bounds(workbook: WorkbookView, sheet: Seq<char>, from: int)
    requires
        1 <= from,
    ensures
        1 <= first_header_row(workbook, sheet, from) <= HEADER_SCAN_ROWS,
    decreases HEADER_SCAN_ROWS - from + 1,
{
    if from <= HEADER_SCAN_ROWS && !is_header_row(workbook, sheet, from) {
        lemma_header_row_in_bounds(workbook, sheet, from + 1);
    }
}

/// Where a row among the first 20 qualifies and no earlier row does, that row
/// is the header row.
pub proof fn lemma_first_qualifying_row_is_header(
    workbook: WorkbookView,
    sheet: Seq<char>,
    row: int,
)
    requires
        1 <= row <= HEADER_SCAN_ROWS,
        is_header_row(workbook, sheet, row),
        forall|r: int| 1 <= r < row ==> !is_header_row(workbook, sheet, r),
    ensures
        header_row_of(workbook, sheet) == row,
{
    lemma_first_from(workbook, sheet, row, 1);
}

proof fn lemma_first_from(workbook: WorkbookView, sheet: Seq<char>, row: int, from: int)
    requires
        1 <= from <= row <= HEADER_SCAN_ROWS,
        is_header_row(workbook, sheet, row),
        forall|r: int| from <= r < row ==> !is_header_row(workbook, sheet, r),
    ensures
        first_header_row(workbook, sheet, from) == row,
    decreases row - from,
{
    if from < row {
        lemma_first_from(workbook, sheet, row, from + 1);
    }
}

/// Where none of the first 20 rows qualifies, the header row is row 1.
pub proof fn lemma_no_qualifying_row_defaults(workbook: WorkbookView, sheet: Seq<char>)
    requires
        forall|r: int| 1 <= r <= HEADER_SCAN_ROWS ==> !is_header_row(workbook, sheet, r),
    ensures
        header_row_of(workbook, sheet) == 1,
{
    lemma_none_from(workbook, sheet, 1);
}

proof fn lemma_none_from(workbook: WorkbookView, sheet: Seq<char>, from: int)
    requires
        1 <= from,
        forall|r: int| from <= r <= HEADER_SCAN_ROWS ==> !is_header_row(workbook, sheet, r),
    ensures
        first_header_row(workbook, sheet, from) == 1,
    decreases HEADER_SCAN_ROWS - from + 1,
{
    if from <= HEADER_SCAN_ROWS {
        lemma_none_from(workbook, sheet, from + 1);
    }
}

/// The keywords as texts.
fn keyword_list() -> (list: Vec<Vec<char>>)
    ensures
        list@.len() == header_keywords().len(),
        forall|k: int| 0 <= k < list@.len() ==> (#[trigger] list@[k])@ == header_keywords()[k],
{
    let mut list: Vec<Vec<char>> = Vec::new();
    list.push(str_chars("број"));
    list.push(str_chars("number"));
    list.push(str_chars("датум"));
    list.push(str_chars("date"));
    list.push(str_chars("продавач"));
    list.push(str_chars("seller"));
    list.push(str_chars("купувач"));
    list.push(str_chars("buyer"));
    list.push(str_chars("вкупно"));
    list.push(str_chars("total"));
    list.push(str_chars("износ"));
    list.push(str_chars("amount"));
    list.push(str_chars("тип"));
    list.push(str_chars("type"));
    list.push(str_chars("опис"));
    list.push(str_chars("description"));
    list.push(str_chars("ддв"));
    list.push(str_chars("vat"));
    list.push(str_chars("tax"));
    list
}

/// The text of a cell, empty where the cell is missing or has none.
pub fn cell_text(workbook: &Workbook, sheet_name: &str, row: u32, col: u32) -> (text:
    String)
    ensures
        text@ == text_at(workbook@, sheet_name@, row as int, col as int),
{
    match read_cell_text(workbook, sheet_name, row, col) {
        Some(text) => text,
        None => String::new(),
    }
}

/// Whether the lowercase form of a cell text contains one of the keywords.
fn has_keyword(text: &str, keywords: &Vec<Vec<char>>) -> (b: bool)
    requires
        keywords@.len() == header_keywords().len(),
        forall|k: int|
            0 <= k < keywords@.len() ==> (#[trigger] keywords@[k])@ == header_keywords()[k],
    ensures
        b == is_keyword_text(text@),
{
    let lower = to_lowercase(text);
    let hay = str_chars(lower.as_str());
    let mut k: usize = 0;
    while k < keywords.len()
        invariant
            k <= keywords@.len(),
            keywords@.len() == header_keywords().len(),
            hay@ == lowercase_of(text@),
            forall|j: int|
                0 <= j < keywords@.len() ==> (#[trigger] keywords@[j])@ == header_keywords()[j],
            forall|j: int| 0 <= j < k ==> !contains_text(hay@, #[trigger] header_keywords()[j]),
        decreases keywords.len() - k,
    {
        if chars_contain(&hay, &keywords[k]) {
            assert(keywords@[k as int]@ == header_keywords()[k as int]);
            return true;
        }
        assert(keywords@[k as int]@ == header_keywords()[k as int]);
        k += 1;
    }
    false
}

/// Detects the header row of a sheet: the first of rows 1 to 20 in which at
/// least three of the first 20 cells contain a keyword, row 1 where no row
/// does. Fails with `NotFound` exactly where the workbook has no such sheet.
pub fn detect_header_row(workbook: &Workbook, sheet_name: &str) -> (r: Result<
    u32,
    ScanError,
>)
    ensures
        !workbook_sheets(workbook@).contains(sheet_name@) ==> r == Err::<u32, ScanError>(
            ScanError::NotFound,
        ),
        workbook_sheets(workbook@).contains(sheet_name@) ==> r is Ok && r->Ok_0 as int
            == header_row_of(workbook@, sheet_name@),
        r matches Ok(row) ==> 1 <= row <= HEADER_SCAN_ROWS,
{
    let sheet = match find_sheet(workbook, sheet_name) {
        Some(sheet) => sheet,
        None => {
            return Err(ScanError::NotFound);
        },
    };
    let keywords = keyword_list();
    let mut row: u32 = 1;
    while row <= HEADER_SCAN_ROWS
        invariant
            1 <= row <= HEADER_SCAN_ROWS + 1,
            sheet_of(workbook@, sheet_name@) == Some(sheet@),
            keywords@.len() == header_keywords().len(),
            forall|k: int|
                0 <= k < keywords@.len() ==> (#[trigger] keywords@[k])@ == header_keywords()[k],
            header_row_of(workbook@, sheet_name@) == first_header_row(
                workbook@,
                sheet_name@,
                row as int,
            ),
        decreases HEADER_SCAN_ROWS + 1 - row,
    {
        let mut count: u32 = 0;
        let mut col: u32 = 1;
        while col <= SCAN_COLUMNS
            invariant
                1 <= col <= SCAN_COLUMNS + 1,
                1 <= row <= HEADER_SCAN_ROWS,
                sheet_of(workbook@, sheet_name@) == Some(sheet@),
                count == keyword_cells(workbook@, sheet_name@, row as int, col - 1),
                count < col,
                keywords@.len() == header_keywords().len(),
                forall|k: int|
                    0 <= k < keywords@.len() ==> (#[trigger] keywords@[k])@ == header_keywords()[k],
            decreases SCAN_COLUMNS + 1 - col,
        {
            let text = sheet_text(sheet, row, col);
            assert(text@ == text_at(workbook@, sheet_name@, row as int, col as int));
            if has_keyword(text.as_str(), &keywords) {
                count += 1;
            }
            col += 1;
        }
        if count >= HEADER_KEYWORD_CELLS {
            return Ok(row);
        }
        row += 1;
    }
    Ok(1)
}

/// Whether a text is blank.
pub fn is_blank_text(text: &str) -> (b: bool)
    ensures
        b == is_blank(text@),
{
    let chars = str_chars(text);
    trim_chars(&chars).len() == 0
}

/// A header cell is blank when its text is.
pub open spec fn blank_at(workbook: WorkbookView, sheet: Seq<char>, row: int, col: int) -> bool {
    is_blank(text_at(workbook, sheet, row, col))
}

/// Three blank cells in a row end at column `col`.
pub open spec fn blank_run_ends_at(
    workbook: WorkbookView,
    sheet: Seq<char>,
    row: int,
    col: int,
) -> bool {
    &&& col >= HEADER_BLANK_RUN
    &&& blank_at(workbook, sheet, row, col - 2)
    &&& blank_at(workbook, sheet, row, col - 1)
    &&& blank_at(workbook, sheet, row, col)
}

/// The first column among `from..=50` at which three blank cells in a row
/// end, or 51 where there is none.
pub open spec fn header_stop_from(
    workbook: WorkbookView,
    sheet: Seq<char>,
    row: int,
    from: int,
) -> int
    decreases HEADER_COLUMNS - from + 1,
{
    if from > HEADER_COLUMNS {
        HEADER_COLUMNS + 1
    } else if blank_run_ends_at(workbook, sheet, row, from) {
        from
    } else {
        header_stop_from(workbook, sheet, row, from + 1)
    }
}

/// The column at which header extraction stops.
pub open spec fn header_stop(workbook: WorkbookView, sheet: Seq<char>, row: int) -> int {
    header_stop_from(workbook, sheet, row, 1)
}

/// The header that the cell in column `col` of the header row makes.
pub open spec fn header_at(
    workbook: WorkbookView,
    sheet: Seq<char>,
    row: int,
    col: int,
) -> HeaderInfoView {
    HeaderInfoView {
        column_index: (col - 1) as u16,
        column_letter: column_letters((col - 1) as nat),
        text: trimmed(text_at(workbook, sheet, row, col)),
    }
}

/// The headers of the non-blank cells among columns `1..=upto`, in column
/// order.
pub open spec fn headers_upto(
    workbook: WorkbookView,
    sheet: Seq<char>,
    row: int,
    upto: int,
) -> Seq<HeaderInfoView>
    decreases upto,
{
    if upto <= 0 {
        Seq::empty()
    } else {
        let before = headers_upto(workbook, sheet, row, upto - 1);
        if blank_at(workbook, sheet, row, upto) {
            before
        } else {
            before.push(header_at(workbook, sheet, row, upto))
        }
    }
}

/// The headers of a header row: its non-blank cells before the column at
/// which extraction stops.
pub open spec fn headers_of(workbook: WorkbookView, sheet: Seq<char>, row: int) -> Seq<
    HeaderInfoView,
> {
    headers_upto(workbook, sheet, row, header_stop(workbook, sheet, row) - 1)
}

/// Headers come out in column order, each column at most once, each below
/// the bound and with the letters of its index.
pub proof fn lemma_headers_upto_ordered(
    workbook: WorkbookView,
    sheet: Seq<char>,
    row: int,
    upto: int,
)
    requires
        upto <= HEADER_COLUMNS,
    ensures
        headers_ordered(headers_upto(workbook, sheet, row, upto)),
        headers_upto(workbook, sheet, row, upto).len() <= if upto < 0 {
            0
        } else {
            upto
        },
        forall|i: int|
            0 <= i < headers_upto(workbook, sheet, row, upto).len() ==> (
            #[trigger] headers_upto(workbook, sheet, row, upto)[i]).column_index < upto,
    decreases upto,
{
    if upto > 0 {
        lemma_headers_upto_ordered(workbook, sheet, row, upto - 1);
    }
}

/// The stop column lies within `from..=51`.
pub proof fn lemma_header_stop_bounds(
    workbook: WorkbookView,
    sheet: Seq<char>,
    row: int,
    from: int,
)
    requires
        1 <= from <= HEADER_COLUMNS + 1,
    ensures
        from <= header_stop_from(workbook, sheet, row, from) <= HEADER_COLUMNS + 1,
    decreases HEADER_COLUMNS - from + 1,
{
    if from <= HEADER_COLUMNS && !blank_run_ends_at(workbook, sheet, row, from) {
        lemma_header_stop_bounds(workbook, sheet, row, from + 1);
    }
}

/// Extracts the headers of a header row: walks columns 1 to 50, stops after
/// three blank cells in a row, and makes a header of each non-blank cell, with
/// its 0-based column index, the letters of that index and the trimmed text.
/// Fails with `NotFound` exactly where the workbook has no such sheet.
pub fn extract_headers(workbook: &Workbook, sheet_name: &str, header_row: u32) -> (r:
    Result<Vec<HeaderInfo>, ScanError>)
    ensures
        !workbook_sheets(workbook@).contains(sheet_name@) ==> r is Err && r->Err_0
            == ScanError::NotFound,
        workbook_sheets(workbook@).contains(sheet_name@) ==> r is Ok && headers_view(r->Ok_0@)
            == headers_of(workbook@, sheet_name@, header_row as int),
        r is Ok ==> headers_ordered(headers_view(r->Ok_0@)) && r->Ok_0@.len()
            <= HEADER_COLUMNS,
{
    let found = match find_sheet(workbook, sheet_name) {
        Some(found) => found,
        None => {
            return Err(ScanError::NotFound);
        },
    };
    let mut headers: Vec<HeaderInfo> = Vec::new();
    let mut empty_count: u32 = 0;
    let mut col: u32 = 1;
    let ghost wb = workbook@;
    let ghost sheet = sheet_name@;
    let ghost row = header_row as int;
    while col <= HEADER_COLUMNS
        invariant_except_break
            1 <= col <= HEADER_COLUMNS + 1,
            wb == workbook@,
            sheet_of(wb, sheet) == Some(found@),
            sheet == sheet_name@,
            row == header_row as int,
            empty_count < HEADER_BLANK_RUN,
            empty_count >= 1 ==> col >= 2 && blank_at(wb, sheet, row, col - 1),
            empty_count >= 2 ==> col >= 3 && blank_at(wb, sheet, row, col - 2),
            empty_count == 0 ==> col == 1 || !blank_at(wb, sheet, row, col - 1),
            empty_count == 1 ==> col == 2 || !blank_at(wb, sheet, row, col - 2),
            header_stop(wb, sheet, row) == header_stop_from(wb, sheet, row, col as int),
            headers_view(headers@) == headers_upto(wb, sheet, row, col - 1),
        ensures
            1 <= col <= HEADER_COLUMNS + 1,
            header_stop(wb, sheet, row) == if col <= HEADER_COLUMNS {
                col as int
            } else {
                HEADER_COLUMNS + 1
            },
            headers_view(headers@) == headers_upto(wb, sheet, row, col - 1),
        decreases HEADER_COLUMNS + 1 - col,
    {
        let text = sheet_text(found, header_row, col);
        assert(text@ == text_at(wb, sheet, row, col as int));
        let chars = str_chars(text.as_str());
        let kept = trim_chars(&chars);
        if kept.len() == 0 {
            empty_count += 1;
            if empty_count >= HEADER_BLANK_RUN {
                assert(blank_run_ends_at(wb, sheet, row, col as int));
                assert(headers_upto(wb, sheet, row, col as int) == headers_upto(
                    wb,
                    sheet,
                    row,
                    col - 1,
                ));
                break ;
            }
        } else {
            empty_count = 0;
            let col_index: u16 = (col - 1) as u16;
            let ghost before = headers@;
            headers.push(
                HeaderInfo {
                    column_index: col_index,
                    column_letter: column_index_to_letter(col_index),
                    text: string_from_chars(&kept),
                },
            );
            assert(headers_view(headers@) =~= headers_view(before).push(
                header_at(wb, sheet, row, col as int),
            ));
        }
        col += 1;
    }
    proof {
        lemma_headers_upto_ordered(wb, sheet, row, header_stop(wb, sheet, row) - 1);
    }
    Ok(headers)
}

/// A row holds data when one of its first 20 cells is not blank.
pub open spec fn row_has_data(workbook: WorkbookView, sheet: Seq<char>, row: int) -> bool {
    exists|col: int| 1 <= col <= SCAN_COLUMNS && !#[trigger] blank_at(workbook, sheet, row, col)
}

/// The last data row that a scan of rows `row..=limit` finds, given the last
/// data row `last` found above them. The scan ends early at the hundredth
/// empty row in a row.
pub open spec fn scan_last(
    workbook: WorkbookView,
    sheet: Seq<char>,
    row: int,
    last: int,
    limit: int,
) -> int
    decreases limit - row + 1,
{
    if row > limit {
        last
    } else if row_has_data(workbook, sheet, row) {
        scan_last(workbook, sheet, row + 1, row, limit)
    } else if row - last >= DATA_BLANK_RUN {
        last
    } else {
        scan_last(workbook, sheet, row + 1, last, limit)
    }
}

/// The last row that the data scan below a header row looks at: the ten
/// thousandth row below it, or the last row that 32 bits can number.
pub open spec fn data_scan_limit(header_row: int) -> int {
    if header_row + DATA_SCAN_ROWS > u32::MAX {
        u32::MAX as int
    } else {
        header_row + DATA_SCAN_ROWS
    }
}

/// The last data row below a header row, the header row itself where no data
/// row is found.
pub open spec fn last_data_row_of(workbook: WorkbookView, sheet: Seq<char>, header_row: int) -> int {
    scan_last(workbook, sheet, header_row + 1, header_row, data_scan_limit(header_row))
}

/// What a data scan finds lies between what was found before and the limit,
/// and is a data row unless nothing new was found.
pub proof fn lemma_scan_last_bounds(
    workbook: WorkbookView,
    sheet: Seq<char>,
    row: int,
    last: int,
    limit: int,
)
    requires
        last < row,
    ensures
        last <= scan_last(workbook, sheet, row, last, limit),
        scan_last(workbook, sheet, row, last, limit) <= if limit < last {
            last
        } else {
            limit
        },
        scan_last(workbook, sheet, row, last, limit) == last || row_has_data(
            workbook,
            sheet,
            scan_last(workbook, sheet, row, last, limit),
        ),
    decreases limit - row + 1,
{
    if row > limit {
    } else if row_has_data(workbook, sheet, row) {
        lemma_scan_last_bounds(workbook, sheet, row + 1, row, limit);
    } else if row - last >= DATA_BLANK_RUN {
    } else {
        lemma_scan_last_bounds(workbook, sheet, row + 1, last, limit);
    }
}

/// No data row follows the reported one within the next hundred rows, as far
/// as the scan reaches.
pub proof fn lemma_scan_last_is_last(
    workbook: WorkbookView,
    sheet: Seq<char>,
    row: int,
    last: int,
    limit: int,
)
    requires
        last < row,
        row - last <= DATA_BLANK_RUN,
        forall|r: int| last < r < row ==> !row_has_data(workbook, sheet, r),
    ensures
        forall|r: int|
            scan_last(workbook, sheet, row, last, limit) < r <= limit && r <= scan_last(
                workbook,
                sheet,
                row,
                last,
                limit,
            ) + DATA_BLANK_RUN ==> !row_has_data(workbook, sheet, r),
    decreases limit - row + 1,
{
    if row > limit {
    } else if row_has_data(workbook, sheet, row) {
        lemma_scan_last_is_last(workbook, sheet, row + 1, row, limit);
    } else if row - last >= DATA_BLANK_RUN {
    } else {
        lemma_scan_last_is_last(workbook, sheet, row + 1, last, limit);
    }
}

/// Where none of the scanned rows holds data, the scan reports what was found
/// before it.
pub proof fn lemma_scan_last_without_data(
    workbook: WorkbookView,
    sheet: Seq<char>,
    row: int,
    last: int,
    limit: int,
)
    requires
        forall|r: int| row <= r <= limit ==> !row_has_data(workbook, sheet, r),
    ensures
        scan_last(workbook, sheet, row, last, limit) == last,
    decreases limit - row + 1,
{
    if row <= limit && row - last < DATA_BLANK_RUN {
        lemma_scan_last_without_data(workbook, sheet, row + 1, last, limit);
    }
}

/// Whether one of the first 20 cells of a row is not blank.
fn has_data_in_row(
    found: &Sheet,
    row: u32,
    Ghost(workbook): Ghost<WorkbookView>,
    Ghost(sheet): Ghost<Seq<char>>,
) -> (b: bool)
    requires
        sheet_of(workbook, sheet) == Some(found@),
    ensures
        b == row_has_data(workbook, sheet, row as int),
{
    let mut col: u32 = 1;
    while col <= SCAN_COLUMNS
        invariant
            1 <= col <= SCAN_COLUMNS + 1,
            sheet_of(workbook, sheet) == Some(found@),
            forall|c: int| 1 <= c < col ==> blank_at(workbook, sheet, row as int, c),
        decreases SCAN_COLUMNS + 1 - col,
    {
        let text = sheet_text(found, row, col);
        assert(text@ == text_at(workbook, sheet, row as int, col as int));
        if !is_blank_text(text.as_str()) {
            assert(!blank_at(workbook, sheet, row as int, col as int));
            return true;
        }
        col += 1;
    }
    false
}

/// Finds the last row that holds data in its first 20 columns, scanning the
/// 10,000 rows below the header row and stopping early after 100 empty rows in
/// a row. The header row itself is reported where no data row is found, so
/// also for a sheet that holds nothing below its header. Fails with `NotFound`
/// exactly where the workbook has no such sheet.
pub fn find_last_data_row(workbook: &Workbook, sheet_name: &str, header_row: u32) -> (r:
    Result<u32, ScanError>)
    ensures
        !workbook_sheets(workbook@).contains(sheet_name@) ==> r == Err::<u32, ScanError>(
            ScanError::NotFound,
        ),
        workbook_sheets(workbook@).contains(sheet_name@) ==> r is Ok && r->Ok_0 as int
            == last_data_row_of(workbook@, sheet_name@, header_row as int),
        r matches Ok(last) ==> header_row <= last <= data_scan_limit(header_row as int),
        workbook_sheets(workbook@).contains(sheet_name@) && (forall|row: int|
            header_row < row <= data_scan_limit(header_row as int) ==> !row_has_data(
                workbook@,
                sheet_name@,
                row,
            )) ==> r == Ok::<u32, ScanError>(header_row),
{
    let found = match find_sheet(workbook, sheet_name) {
        Some(found) => found,
        None => {
            return Err(ScanError::NotFound);
        },
    };
    let limit: u32 = if header_row > u32::MAX - DATA_SCAN_ROWS {
        u32::MAX
    } else {
        header_row + DATA_SCAN_ROWS
    };
    let mut last_row: u32 = header_row;
    let mut row: u32 = header_row;
    let ghost wb = workbook@;
    let ghost sheet = sheet_name@;
    proof {
        lemma_scan_last_bounds(wb, sheet, header_row + 1, header_row as int, limit as int);
        if forall|row: int|
            header_row < row <= data_scan_limit(header_row as int) ==> !row_has_data(wb, sheet, row) {
            lemma_scan_last_without_data(
                wb,
                sheet,
                header_row + 1,
                header_row as int,
                limit as int,
            );
        }
    }
    while row < limit
        invariant_except_break
            wb == workbook@,
            sheet == sheet_name@,
            sheet_of(wb, sheet) == Some(found@),
            limit == data_scan_limit(header_row as int),
            header_row <= last_row <= row <= limit,
            last_data_row_of(wb, sheet, header_row as int) == scan_last(
                wb,
                sheet,
                row + 1,
                last_row as int,
                limit as int,
            ),
        ensures
            header_row <= last_row <= limit,
            last_data_row_of(wb, sheet, header_row as int) == last_row,
        decreases limit - row,
    {
        row += 1;
        if has_data_in_row(found, row, Ghost(wb), Ghost(sheet)) {
            last_row = row;
        } else if row - last_row >= DATA_BLANK_RUN {
            break ;
        }
    }
    Ok(last_row)
}

/// The bit pattern of the width that every scanned column is given: ten.
pub const DEFAULT_COLUMN_WIDTH_BITS: u64 = 0x4024_0000_0000_0000;

/// The width that every scanned column is given.
pub open spec fn default_column_width() -> Real {
    Real { bits: DEFAULT_COLUMN_WIDTH_BITS }
}

/// The hexadecimal digit of a value below 16, in capitals.
pub open spec fn hex_digit(d: int) -> char {
    if d < 10 {
        (48 + d) as u8 as char
    } else {
        (55 + d) as u8 as char
    }
}

/// A colour as `#RRGGBB`; black for a colour that is not given as red, green
/// and blue.
pub open spec fn color_hex(color: CellColor) -> Seq<char> {
    match color {
        CellColor::Rgb(r, g, b) => seq![
            '#',
            hex_digit(r as int / 16),
            hex_digit(r as int % 16),
            hex_digit(g as int / 16),
            hex_digit(g as int % 16),
            hex_digit(b as int / 16),
            hex_digit(b as int % 16),
        ],
        _ => seq!['#', '0', '0', '0', '0', '0', '0'],
    }
}

fn hex_char(d: u8) -> (c: char)
    requires
        d < 16,
    ensures
        c == hex_digit(d as int),
{
    if d < 10 {
        (48 + d) as char
    } else {
        (55 + d) as char
    }
}

/// Writes a colour as `#RRGGBB` (best effort: black for an indexed, theme or
/// default colour).
pub fn format_color_to_hex(color: &CellColor) -> (hex: String)
    ensures
        hex@ == color_hex(*color),
{
    let mut chars: Vec<char> = Vec::new();
    chars.push('#');
    match color {
        CellColor::Rgb(r, g, b) => {
            chars.push(hex_char(*r / 16));
            chars.push(hex_char(*r % 16));
            chars.push(hex_char(*g / 16));
            chars.push(hex_char(*g % 16));
            chars.push(hex_char(*b / 16));
            chars.push(hex_char(*b % 16));
        },
        _ => {
            chars.push('0');
            chars.push('0');
            chars.push('0');
            chars.push('0');
            chars.push('0');
            chars.push('0');
        },
    }
    assert(chars@ =~= color_hex(*color));
    string_from_chars(&chars)
}

/// The background of the cell one row below the template cell, where that
/// row lies within the sheet, the cell is formatted and its background
/// differs from the template's.
pub open spec fn alternate_background(
    workbook: WorkbookView,
    sheet: Seq<char>,
    template_row: int,
    col: int,
    background: Seq<char>,
) -> Option<Seq<char>> {
    let next = (sheet, template_row + 1, col);
    if template_row + 1 <= workbook_max_rows(workbook)[sheet] && workbook_fills(
        workbook,
    ).contains_key(next) && color_hex(workbook_fills(workbook)[next]) != background {
        Some(color_hex(workbook_fills(workbook)[next]))
    } else {
        None
    }
}

/// The format of a header's column, read from the cell in the template row:
/// its font and background where the cell is formatted, fixed defaults where
/// it is not; border and alignment are always the defaults.
pub open spec fn column_format_of(
    workbook: WorkbookView,
    sheet: Seq<char>,
    header: HeaderInfoView,
    template_row: int,
) -> ColumnFormatView {
    let col = header.column_index + 1;
    let cell = (sheet, template_row, col);
    let formatted = workbook_fonts(workbook).contains_key(cell);
    let font = workbook_fonts(workbook)[cell];
    let background = if formatted {
        color_hex(workbook_fills(workbook)[cell])
    } else {
        "#FFFFFF"@
    };
    ColumnFormatView {
        column_index: header.column_index,
        column_letter: header.column_letter,
        header_text: header.text,
        font_name: if formatted {
            font.name
        } else {
            "Arial"@
        },
        font_size: if formatted {
            font.size
        } else {
            11
        },
        font_color: if formatted {
            color_hex(font.color)
        } else {
            "#000000"@
        },
        font_bold: formatted && font.bold,
        font_italic: formatted && font.italic,
        background_color: background,
        background_color_alt: alternate_background(workbook, sheet, template_row, col, background),
        border_style: "thin"@,
        border_color: "#000000"@,
        alignment: "left"@,
        data_type: data_type_of(text_at(workbook, sheet, template_row, col)),
        number_format: None,
        column_width: default_column_width(),
    }
}

/// Reads the format of one header's column from the cell in the template
/// row. Fails with `NotFound` exactly where the workbook has no such sheet.
pub fn cell_to_column_format(
    workbook: &Workbook,
    sheet_name: &str,
    header: &HeaderInfo,
    template_row: u32,
) -> (r: Result<ColumnFormat, ScanError>)
    requires
        header.column_index < u16::MAX,
        template_row < u32::MAX,
    ensures
        !workbook_sheets(workbook@).contains(sheet_name@) ==> r is Err && r->Err_0
            == ScanError::NotFound,
        workbook_sheets(workbook@).contains(sheet_name@) ==> r is Ok && r->Ok_0@
            == column_format_of(workbook@, sheet_name@, header@, template_row as int),
{
    let max_row = match sheet_max_row(workbook, sheet_name) {
        Some(m) => m,
        None => {
            return Err(ScanError::NotFound);
        },
    };
    let col: u32 = (header.column_index + 1) as u32;
    let font = read_cell_font(workbook, sheet_name, template_row, col);
    let fill = read_cell_fill(workbook, sheet_name, template_row, col);
    let text = cell_text(workbook, sheet_name, template_row, col);
    let (font_name, font_size, font_color, font_bold, font_italic, background_color) = match (
        font,
        fill,
    ) {
        (Some(f), Some(bg)) => (
            f.name,
            f.size,
            format_color_to_hex(&f.color),
            f.bold,
            f.italic,
            format_color_to_hex(&bg),
        ),
        _ => ("Arial".to_owned(), 11u16, "#000000".to_owned(), false, false, "#FFFFFF".to_owned()),
    };
    let background_color_alt: Option<String> = if template_row + 1 <= max_row {
        match read_cell_fill(workbook, sheet_name, template_row + 1, col) {
            Some(next) => {
                let next_bg = format_color_to_hex(&next);
                if next_bg != background_color {
                    Some(next_bg)
                } else {
                    None
                }
            },
            None => None,
        }
    } else {
        None
    };
    Ok(
        ColumnFormat {
            column_index: header.column_index,
            column_letter: header.column_letter.clone(),
            header_text: header.text.clone(),
            font_name,
            font_size,
            font_color,
            font_bold,
            font_italic,
            background_color,
            background_color_alt,
            border_style: "thin".to_owned(),
            border_color: "#000000".to_owned(),
            alignment: "left".to_owned(),
            data_type: detect_data_type(text.as_str()),
            number_format: None,
            column_width: Real { bits: DEFAULT_COLUMN_WIDTH_BITS },
        },
    )
}

/// The formats of the columns of a list of headers, one for each header.
pub open spec fn column_formats_of(
    workbook: WorkbookView,
    sheet: Seq<char>,
    headers: Seq<HeaderInfoView>,
    template_row: int,
) -> Seq<ColumnFormatView> {
    Seq::new(headers.len(), |i: int| column_format_of(workbook, sheet, headers[i], template_row))
}

/// Reads the format of each header's column from the template row, in the
/// order of the headers. Fails with `NotFound` exactly where there is a
/// header and the workbook has no such sheet.
pub fn analyze_column_formats(
    workbook: &Workbook,
    sheet_name: &str,
    headers: &Vec<HeaderInfo>,
    template_row: u32,
) -> (r: Result<Vec<ColumnFormat>, ScanError>)
    requires
        forall|i: int| 0 <= i < headers@.len() ==> (#[trigger] headers@[i]).column_index < u16::MAX,
        template_row < u32::MAX,
    ensures
        headers@.len() > 0 && !workbook_sheets(workbook@).contains(sheet_name@) ==> r is Err
            && r->Err_0 == ScanError::NotFound,
        headers@.len() == 0 || workbook_sheets(workbook@).contains(sheet_name@) ==> r is Ok
            && columns_view(r->Ok_0@) == column_formats_of(
            workbook@,
            sheet_name@,
            headers_view(headers@),
            template_row as int,
        ),
{
    let mut columns: Vec<ColumnFormat> = Vec::new();
    let mut i: usize = 0;
    while i < headers.len()
        invariant
            i <= headers@.len(),
            columns@.len() == i,
            template_row < u32::MAX,
            i > 0 ==> workbook_sheets(workbook@).contains(sheet_name@),
            forall|k: int|
                0 <= k < headers@.len() ==> (#[trigger] headers@[k]).column_index < u16::MAX,
            forall|k: int|
                0 <= k < i ==> (#[trigger] columns@[k])@ == column_format_of(
                    workbook@,
                    sheet_name@,
                    headers@[k]@,
                    template_row as int,
                ),
        decreases headers.len() - i,
    {
        match cell_to_column_format(workbook, sheet_name, &headers[i], template_row) {
            Ok(column) => {
                columns.push(column);
            },
            Err(e) => {
                return Err(e);
            },
        }
        i += 1;
    }
    assert(columns_view(columns@) =~= column_formats_of(
        workbook@,
        sheet_name@,
        headers_view(headers@),
        template_row as int,
    ));
    Ok(columns)
}

/// Some column has an alternate background.
pub open spec fn any_alternate(columns: Seq<ColumnFormatView>) -> bool {
    exists|i: int| 0 <= i < columns.len() && (#[trigger] columns[i]).background_color_alt is Some
}

/// What a scan of a sheet yields: the schema of the sheet, `NotFound` where
/// the workbook has no such sheet, `EmptySheet` where the header row has no
/// header within the scan bounds.
pub open spec fn scan_of(
    workbook: WorkbookView,
    sheet: Seq<char>,
    file_size: u64,
    file_mtime: u64,
) -> Result<ExcelSchemaView, ScanError> {
    if !workbook_sheets(workbook).contains(sheet) {
        Err(ScanError::NotFound)
    } else {
        let header_row = header_row_of(workbook, sheet);
        let headers = headers_of(workbook, sheet, header_row);
        if headers.len() == 0 {
            Err(ScanError::EmptySheet)
        } else {
            let last = last_data_row_of(workbook, sheet, header_row);
            let columns = column_formats_of(workbook, sheet, headers, header_row + 1);
            Ok(
                ExcelSchemaView {
                    header_row: header_row as u32,
                    first_data_row: (header_row + 1) as u32,
                    last_data_row: last as u32,
                    next_free_row: (last + 1) as u32,
                    total_rows: workbook_max_rows(workbook)[sheet],
                    total_columns: headers.len() as u16,
                    headers,
                    columns,
                    row_template: RowTemplate {
                        template_row_index: (header_row + 1) as u32,
                        row_height: workbook_row_heights(workbook)[sheet],
                        use_alternating_colors: any_alternate(columns),
                    },
                    file_size,
                    file_mtime,
                },
            )
        }
    }
}

/// Whether some column has an alternate background.
fn has_alternate(columns: &Vec<ColumnFormat>) -> (b: bool)
    ensures
        b == any_alternate(columns_view(columns@)),
{
    let mut i: usize = 0;
    while i < columns.len()
        invariant
            i <= columns@.len(),
            forall|k: int|
                0 <= k < i ==> (#[trigger] columns_view(columns@)[k]).background_color_alt is None,
        decreases columns.len() - i,
    {
        if columns[i].background_color_alt.is_some() {
            assert(columns_view(columns@)[i as int].background_color_alt is Some);
            return true;
        }
        i += 1;
    }
    false
}

/// Scans one sheet of a workbook, whose file has the given size and
/// modification time: the header row, the headers, the last data row, the
/// next free row, the number of rows, the column formats, the row template,
/// and the file's signature as given.
pub fn scan_excel_file(
    workbook: &Workbook,
    sheet_name: &str,
    file_size: u64,
    file_mtime: u64,
) -> (r: Result<
    (u32, Vec<HeaderInfo>, u32, u32, u32, Vec<ColumnFormat>, RowTemplate, u64, u64),
    ScanError,
>)
    ensures
        r matches Err(e) ==> scan_of(workbook@, sheet_name@, file_size, file_mtime) == Err::<
            ExcelSchemaView,
            ScanError,
        >(e),
        r matches Ok(t) ==> scan_of(workbook@, sheet_name@, file_size, file_mtime) == Ok::<
            ExcelSchemaView,
            ScanError,
        >(
            ExcelSchemaView {
                header_row: t.0,
                first_data_row: (t.0 + 1) as u32,
                last_data_row: t.2,
                next_free_row: t.3,
                total_rows: t.4,
                total_columns: t.1@.len() as u16,
                headers: headers_view(t.1@),
                columns: columns_view(t.5@),
                row_template: t.6,
                file_size: t.7,
                file_mtime: t.8,
            },
        ),
        r matches Ok(t) ==> 1 <= t.0 <= HEADER_SCAN_ROWS && 0 < t.1@.len() <= HEADER_COLUMNS,
{
    let header_row = match detect_header_row(workbook, sheet_name) {
        Ok(row) => row,
        Err(e) => {
            return Err(e);
        },
    };
    let headers = match extract_headers(workbook, sheet_name, header_row) {
        Ok(headers) => headers,
        Err(e) => {
            return Err(e);
        },
    };
    assert(headers_view(headers@).len() == headers@.len());
    if headers.len() == 0 {
        return Err(ScanError::EmptySheet);
    }
    let last_data_row = match find_last_data_row(workbook, sheet_name, header_row) {
        Ok(row) => row,
        Err(e) => {
            return Err(e);
        },
    };
    let next_free_row: u32 = last_data_row + 1;
    let template_row: u32 = header_row + 1;
    proof {
        let hs = headers_view(headers@);
        lemma_header_stop_bounds(workbook@, sheet_name@, header_row as int, 1);
        lemma_headers_upto_ordered(
            workbook@,
            sheet_name@,
            header_row as int,
            header_stop(workbook@, sheet_name@, header_row as int) - 1,
        );
        assert forall|i: int| 0 <= i < headers@.len() implies (#[trigger] headers@[i]).column_index
            < u16::MAX by {
            assert(hs[i].column_index == headers@[i].column_index);
        }
    }
    let columns = match analyze_column_formats(workbook, sheet_name, &headers, template_row) {
        Ok(columns) => columns,
        Err(e) => {
            return Err(e);
        },
    };
    let row_height = match sheet_default_row_height(workbook, sheet_name) {
        Some(h) => h,
        None => {
            return Err(ScanError::NotFound);
        },
    };
    let total_rows = match sheet_max_row(workbook, sheet_name) {
        Some(m) => m,
        None => {
            return Err(ScanError::NotFound);
        },
    };
    let row_template = RowTemplate {
        template_row_index: template_row,
        row_height,
        use_alternating_colors: has_alternate(&columns),
    };
    Ok(
        (
            header_row,
            headers,
            last_data_row,
            next_free_row,
            total_rows,
            columns,
            row_template,
            file_size,
            file_mtime,
        ),
    )
}

/// Scans one sheet of a workbook into its schema. The result is a
/// function of the workbook's contents and the signature given, so scanning
/// the same workbook again yields the same schema.
pub fn scan_excel_schema(
    workbook: &Workbook,
    sheet_name: &str,
    file_size: u64,
    file_mtime: u64,
) -> (r: Result<ExcelSchema, ScanError>)
    ensures
        r matches Err(e) ==> scan_of(workbook@, sheet_name@, file_size, file_mtime) == Err::<
            ExcelSchemaView,
            ScanError,
        >(e),
        r matches Ok(schema) ==> scan_of(workbook@, sheet_name@, file_size, file_mtime) == Ok::<
            ExcelSchemaView,
            ScanError,
        >(schema@),
        r matches Ok(schema) ==> schema@.well_formed() && schema@.next_free_row
            == schema@.last_data_row + 1 && schema@.file_mtime == file_mtime,
{
    proof {
        if scan_of(workbook@, sheet_name@, file_size, file_mtime) is Ok {
            lemma_scanned_schema_is_well_formed(workbook@, sheet_name@, file_size, file_mtime);
        }
    }
    match scan_excel_file(workbook, sheet_name, file_size, file_mtime) {
        Ok(t) => {
            let (
                header_row,
                headers,
                last_data_row,
                next_free_row,
                total_rows,
                columns,
                row_template,
                file_size,
                file_mtime,
            ) = t;
            let total_columns: u16 = headers.len() as u16;
            Ok(
                ExcelSchema {
                    header_row,
                    first_data_row: header_row + 1,
                    last_data_row,
                    next_free_row,
                    total_rows,
                    total_columns,
                    headers,
                    columns,
                    row_template,
                    file_size,
                    file_mtime,
                },
            )
        },
        Err(e) => Err(e),
    }
}

/// Every schema that a scan yields is well formed: its rows are 1-based and
/// consistent, the next free row follows the last data row, the headers stand
/// in column order without repetition, and there is one column format for each
/// header.
pub proof fn lemma_scanned_schema_is_well_formed(
    workbook: WorkbookView,
    sheet: Seq<char>,
    file_size: u64,
    file_mtime: u64,
)
    requires
        scan_of(workbook, sheet, file_size, file_mtime) is Ok,
    ensures
        scan_of(workbook, sheet, file_size, file_mtime)->Ok_0.well_formed(),
        scan_of(workbook, sheet, file_size, file_mtime)->Ok_0.file_size == file_size,
        scan_of(workbook, sheet, file_size, file_mtime)->Ok_0.file_mtime == file_mtime,
{
    let header_row = header_row_of(workbook, sheet);
    lemma_header_row_in_bounds(workbook, sheet, 1);
    lemma_header_stop_bounds(workbook, sheet, header_row, 1);
    lemma_headers_upto_ordered(workbook, sheet, header_row, header_stop(workbook, sheet, header_row) - 1);
    lemma_scan_last_bounds(workbook, sheet, header_row + 1, header_row, data_scan_limit(header_row));
}

/// Scanning is repeatable: whatever two scans of one workbook with one file
/// signature yield, they yield the same.
pub proof fn lemma_scan_is_repeatable(
    workbook: WorkbookView,
    sheet: Seq<char>,
    file_size: u64,
    file_mtime: u64,
    first: Result<ExcelSchemaView, ScanError>,
    second: Result<ExcelSchemaView, ScanError>,
)
    requires
        first == scan_of(workbook, sheet, file_size, file_mtime),
        second == scan_of(workbook, sheet, file_size, file_mtime),
    ensures
        first == second,
{
}

/// A sheet with headers and no data row below them is scanned to a schema
/// whose last data row is the header row and whose next free row is the row
/// below it.
pub proof fn lemma_header_only_sheet(
    workbook: WorkbookView,
    sheet: Seq<char>,
    file_size: u64,
    file_mtime: u64,
)
    requires
        scan_of(workbook, sheet, file_size, file_mtime) is Ok,
        forall|row: int|
            header_row_of(workbook, sheet) < row <= data_scan_limit(header_row_of(workbook, sheet))
                ==> !row_has_data(workbook, sheet, row),
    ensures
        scan_of(workbook, sheet, file_size, file_mtime)->Ok_0.last_data_row == scan_of(
            workbook,
            sheet,
            file_size,
            file_mtime,
        )->Ok_0.header_row,
        scan_of(workbook, sheet, file_size, file_mtime)->Ok_0.next_free_row == scan_of(
            workbook,
            sheet,
            file_size,
            file_mtime,
        )->Ok_0.header_row + 1,
{
    let header_row = header_row_of(workbook, sheet);
    lemma_header_row_in_bounds(workbook, sheet, 1);
    lemma_scan_last_without_data(
        workbook,
        sheet,
        header_row + 1,
        header_row,
        data_scan_limit(header_row),
    );
}

} // verus!
