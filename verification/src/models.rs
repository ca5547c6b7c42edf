//! The structural schema of a spreadsheet and its parts.

use vstd::prelude::*;
use crate::letters::column_letters;

verus! {

/// A real number (a length in points, a confidence), carried as the bit
/// pattern of its IEEE 754 double.
///
/// The library never computes with such numbers; it only hands them on.
#[derive(Clone, Copy, Debug, PartialEq, Eq, Structural)]
pub struct Real {
    pub bits: u64,
}

/// One header cell: where it stands and what it says.
#[derive(Debug, PartialEq, Eq)]
pub struct HeaderInfo {
    pub column_index: u16,
    pub column_letter: String,
    pub text: String,
}

/// The mathematical content of a [`HeaderInfo`].
pub struct HeaderInfoView {
    pub column_index: u16,
    pub column_letter: Seq<char>,
    pub text: Seq<char>,
}

impl View for HeaderInfo {
    type V = HeaderInfoView;

    open spec fn view(&self) -> HeaderInfoView {
        HeaderInfoView {
            column_index: self.column_index,
            column_letter: self.column_letter@,
            text: self.text@,
        }
    }
}

impl Clone for HeaderInfo {
    fn clone(&self) -> (r: Self)
        ensures
            r@ == self@,
    {
        HeaderInfo {
            column_index: self.column_index,
            column_letter: self.column_letter.clone(),
            text: self.text.clone(),
        }
    }
}

/// The visual format of one column, taken from its first data cell.
#[derive(Debug, PartialEq, Eq)]
pub struct ColumnFormat {
    pub column_index: u16,
    pub column_letter: String,
    pub header_text: String,
    pub font_name: String,
    pub font_size: u16,
    pub font_color: String,
    pub font_bold: bool,
    pub font_italic: bool,
    pub background_color: String,
    pub background_color_alt: Option<String>,
    pub border_style: String,
    pub border_color: String,
    pub alignment: String,
    pub data_type: String,
    pub number_format: Option<String>,
    pub column_width: Real,
}

/// The mathematical content of a [`ColumnFormat`].
pub struct ColumnFormatView {
    pub column_index: u16,
    pub column_letter: Seq<char>,
    pub header_text: Seq<char>,
    pub font_name: Seq<char>,
    pub font_size: u16,
    pub font_color: Seq<char>,
    pub font_bold: bool,
    pub font_italic: bool,
    pub background_color: Seq<char>,
    pub background_color_alt: Option<Seq<char>>,
    pub border_style: Seq<char>,
    pub border_color: Seq<char>,
    pub alignment: Seq<char>,
    pub data_type: Seq<char>,
    pub number_format: Option<Seq<char>>,
    pub column_width: Real,
}

/// The content of an optional text.
pub open spec fn opt_text(o: Option<String>) -> Option<Seq<char>> {
    match o {
        Some(s) => Some(s@),
        None => None,
    }
}

/// A copy of an optional text.
pub fn clone_opt_text(o: &Option<String>) -> (r: Option<String>)
    ensures
        opt_text(r) == opt_text(*o),
{
    match o {
        Some(s) => Some(s.clone()),
        None => None,
    }
}

impl View for ColumnFormat {
    type V = ColumnFormatView;

    open spec fn view(&self) -> ColumnFormatView {
        ColumnFormatView {
            column_index: self.column_index,
            column_letter: self.column_letter@,
            header_text: self.header_text@,
            font_name: self.font_name@,
            font_size: self.font_size,
            font_color: self.font_color@,
            font_bold: self.font_bold,
            font_italic: self.font_italic,
            background_color: self.background_color@,
            background_color_alt: opt_text(self.background_color_alt),
            border_style: self.border_style@,
            border_color: self.border_color@,
            alignment: self.alignment@,
            data_type: self.data_type@,
            number_format: opt_text(self.number_format),
            column_width: self.column_width,
        }
    }
}

impl Clone for ColumnFormat {
    fn clone(&self) -> (r: Self)
        ensures
            r@ == self@,
    {
        ColumnFormat {
            column_index: self.column_index,
            column_letter: self.column_letter.clone(),
            header_text: self.header_text.clone(),
            font_name: self.font_name.clone(),
            font_size: self.font_size,
            font_color: self.font_color.clone(),
            font_bold: self.font_bold,
            font_italic: self.font_italic,
            background_color: self.background_color.clone(),
            background_color_alt: clone_opt_text(&self.background_color_alt),
            border_style: self.border_style.clone(),
            border_color: self.border_color.clone(),
            alignment: self.alignment.clone(),
            data_type: self.data_type.clone(),
            number_format: clone_opt_text(&self.number_format),
            column_width: self.column_width,
        }
    }
}

/// The visual pattern that new rows imitate.
#[derive(Clone, Copy, Debug, PartialEq, Eq, Structural)]
pub struct RowTemplate {
    pub template_row_index: u32,
    pub row_height: Real,
    pub use_alternating_colors: bool,
}

/// The structure of one sheet as a scan found it.
#[derive(Debug, PartialEq, Eq)]
pub struct ExcelSchema {
    pub header_row: u32,
    pub first_data_row: u32,
    pub last_data_row: u32,
    pub next_free_row: u32,
    pub total_rows: u32,
    pub total_columns: u16,
    pub headers: Vec<HeaderInfo>,
    pub columns: Vec<ColumnFormat>,
    pub row_template: RowTemplate,
    pub file_size: u64,
    pub file_mtime: u64,
}

/// The mathematical content of an [`ExcelSchema`].
pub struct ExcelSchemaView {
    pub header_row: u32,
    pub first_data_row: u32,
    pub last_data_row: u32,
    pub next_free_row: u32,
    pub total_rows: u32,
    pub total_columns: u16,
    pub headers: Seq<HeaderInfoView>,
    pub columns: Seq<ColumnFormatView>,
    pub row_template: RowTemplate,
    pub file_size: u64,
    pub file_mtime: u64,
}

/// The contents of a list of headers.
pub open spec fn headers_view(headers: Seq<HeaderInfo>) -> Seq<HeaderInfoView> {
    Seq::new(headers.len(), |i: int| headers[i]@)
}

/// The contents of a list of column formats.
pub open spec fn columns_view(columns: Seq<ColumnFormat>) -> Seq<ColumnFormatView> {
    Seq::new(columns.len(), |i: int| columns[i]@)
}

impl View for ExcelSchema {
    type V = ExcelSchemaView;

    open spec fn view(&self) -> ExcelSchemaView {
        ExcelSchemaView {
            header_row: self.header_row,
            first_data_row: self.first_data_row,
            last_data_row: self.last_data_row,
            next_free_row: self.next_free_row,
            total_rows: self.total_rows,
            total_columns: self.total_columns,
            headers: headers_view(self.headers@),
            columns: columns_view(self.columns@),
            row_template: self.row_template,
            file_size: self.file_size,
            file_mtime: self.file_mtime,
        }
    }
}

/// A copy of a list of headers.
pub fn clone_headers(headers: &Vec<HeaderInfo>) -> (r: Vec<HeaderInfo>)
    ensures
        headers_view(r@) == headers_view(headers@),
{
    let mut r: Vec<HeaderInfo> = Vec::new();
    let mut i: usize = 0;
    while i < headers.len()
        invariant
            i <= headers.len(),
            r.len() == i,
            forall|k: int| 0 <= k < i ==> r@[k]@ == headers@[k]@,
        decreases headers.len() - i,
    {
        r.push(headers[i].clone());
        i += 1;
    }
    assert(headers_view(r@) =~= headers_view(headers@));
    r
}

/// A copy of a list of column formats.
pub fn clone_columns(columns: &Vec<ColumnFormat>) -> (r: Vec<ColumnFormat>)
    ensures
        columns_view(r@) == columns_view(columns@),
{
    let mut r: Vec<ColumnFormat> = Vec::new();
    let mut i: usize = 0;
    while i < columns.len()
        invariant
            i <= columns.len(),
            r.len() == i,
            forall|k: int| 0 <= k < i ==> r@[k]@ == columns@[k]@,
        decreases columns.len() - i,
    {
        r.push(columns[i].clone());
        i += 1;
    }
    assert(columns_view(r@) =~= columns_view(columns@));
    r
}

impl Clone for ExcelSchema {
    fn clone(&self) -> (r: Self)
        ensures
            r@ == self@,
    {
        ExcelSchema {
            header_row: self.header_row,
            first_data_row: self.first_data_row,
            last_data_row: self.last_data_row,
            next_free_row: self.next_free_row,
            total_rows: self.total_rows,
            total_columns: self.total_columns,
            headers: clone_headers(&self.headers),
            columns: clone_columns(&self.columns),
            row_template: self.row_template,
            file_size: self.file_size,
            file_mtime: self.file_mtime,
        }
    }
}

/// Headers stand in column order, each column at most once, each with the
/// letters of its own index.
pub open spec fn headers_ordered(headers: Seq<HeaderInfoView>) -> bool {
    &&& forall|i: int, j: int|
        0 <= i < j < headers.len() ==> (#[trigger] headers[i]).column_index < (
        #[trigger] headers[j]).column_index
    &&& forall|i: int|
        0 <= i < headers.len() ==> (#[trigger] headers[i]).column_letter == column_letters(
            headers[i].column_index as nat,
        )
}

/// There is one column format for each header, for the same column.
pub open spec fn columns_match(
    headers: Seq<HeaderInfoView>,
    columns: Seq<ColumnFormatView>,
) -> bool {
    &&& columns.len() == headers.len()
    &&& forall|i: int|
        0 <= i < headers.len() ==> {
            &&& (#[trigger] columns[i]).column_index == headers[i].column_index
            &&& columns[i].column_letter == headers[i].column_letter
            &&& columns[i].header_text == headers[i].text
        }
}

impl ExcelSchemaView {
    /// The row bookkeeping is consistent: rows are 1-based, data starts right
    /// below the header, and the next free row follows the last data row.
    pub open spec fn rows_consistent(self) -> bool {
        &&& 1 <= self.header_row
        &&& self.first_data_row == self.header_row + 1
        &&& self.header_row <= self.last_data_row
        &&& self.next_free_row == self.last_data_row + 1
    }

    /// What every freshly scanned schema satisfies.
    pub open spec fn well_formed(self) -> bool {
        &&& self.rows_consistent()
        &&& self.headers.len() > 0
        &&& self.total_columns == self.headers.len()
        &&& headers_ordered(self.headers)
        &&& columns_match(self.headers, self.columns)
        &&& self.row_template.template_row_index == self.first_data_row
    }
}

} // verus!
