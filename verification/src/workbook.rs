//! The contents of a workbook as the scanner reads them: plain values.
//!
//! Whoever opens the spreadsheet file fills a [`Workbook`] with what the
//! file's sheets hold: for each cell its text and its format, where it has
//! them, and for each sheet the number of its last row and its default row
//! height. Rows and columns are 1-based: the cell in row `r` and column `c`
//! is `rows[r - 1][c - 1]`; a cell that the lists do not reach is empty.

use vstd::prelude::*;
use crate::models::Real;

verus! {

/// A colour as a cell format holds it.
#[derive(Clone, Copy, Debug, PartialEq, Eq, Structural)]
pub enum CellColor {
    /// No colour of its own.
    Default,
    /// An entry of the indexed palette.
    Index(u8),
    /// A colour of the workbook's theme.
    Theme(u8),
    /// Red, green and blue.
    Rgb(u8, u8, u8),
}

/// The font of a formatted cell. The size is in whole points.
#[derive(Clone, Debug, PartialEq, Eq)]
pub struct CellFont {
    pub name: String,
    pub size: u16,
    pub color: CellColor,
    pub bold: bool,
    pub italic: bool,
}

/// The mathematical content of a [`CellFont`].
pub struct CellFontView {
    pub name: Seq<char>,
    pub size: u16,
    pub color: CellColor,
    pub bold: bool,
    pub italic: bool,
}

impl View for CellFont {
    type V = CellFontView;

    open spec fn view(&self) -> CellFontView {
        CellFontView {
            name: self.name@,
            size: self.size,
            color: self.color,
            bold: self.bold,
            italic: self.italic,
        }
    }
}

/// The format of a cell: its font and the colour of its fill.
#[derive(Clone, Debug, PartialEq, Eq)]
pub struct CellFormat {
    pub font: CellFont,
    pub fill: CellColor,
}

/// The mathematical content of a [`CellFormat`].
pub struct CellFormatView {
    pub font: CellFontView,
    pub fill: CellColor,
}

impl View for CellFormat {
    type V = CellFormatView;

    open spec fn view(&self) -> CellFormatView {
        CellFormatView { font: self.font@, fill: self.fill }
    }
}

/// One cell: its text and its format, each where the cell has one.
#[derive(Clone, Debug, PartialEq, Eq)]
pub struct Cell {
    pub text: Option<String>,
    pub format: Option<CellFormat>,
}

/// The mathematical content of a [`Cell`].
pub struct CellView {
    pub text: Option<Seq<char>>,
    pub format: Option<CellFormatView>,
}

impl View for Cell {
    type V = CellView;

    open spec fn view(&self) -> CellView {
        CellView {
            text: match self.text {
                Some(t) => Some(t@),
                None => None,
            },
            format: match self.format {
                Some(f) => Some(f@),
                None => None,
            },
        }
    }
}

/// One sheet: its name, its cells row by row, the number of its last row (0
/// for a sheet without rows) and its default row height.
#[derive(Clone, Debug, PartialEq, Eq)]
pub struct Sheet {
    pub name: String,
    pub rows: Vec<Vec<Cell>>,
    pub max_row: u32,
    pub default_row_height: Real,
}

/// The mathematical content of a [`Sheet`].
pub struct SheetView {
    pub name: Seq<char>,
    pub rows: Seq<Seq<CellView>>,
    pub max_row: u32,
    pub default_row_height: Real,
}

/// The contents of a row of cells.
pub open spec fn row_view(cells: Seq<Cell>) -> Seq<CellView> {
    Seq::new(cells.len(), |i: int| cells[i]@)
}

impl View for Sheet {
    type V = SheetView;

    open spec fn view(&self) -> SheetView {
        SheetView {
            name: self.name@,
            rows: Seq::new(self.rows@.len(), |i: int| row_view(self.rows@[i]@)),
            max_row: self.max_row,
            default_row_height: self.default_row_height,
        }
    }
}

/// A workbook: its sheets, in order.
#[derive(Clone, Debug, PartialEq, Eq)]
pub struct Workbook {
    pub sheets: Vec<Sheet>,
}

/// The mathematical content of a [`Workbook`].
pub struct WorkbookView {
    pub sheets: Seq<SheetView>,
}

impl View for Workbook {
    type V = WorkbookView;

    open spec fn view(&self) -> WorkbookView {
        WorkbookView { sheets: Seq::new(self.sheets@.len(), |i: int| self.sheets@[i]@) }
    }
}

/// The first of the sheets from position `from` on that has the name.
pub open spec fn sheet_from(sheets: Seq<SheetView>, name: Seq<char>, from: int) -> Option<SheetView>
    decreases sheets.len() - from,
{
    if from < 0 || from >= sheets.len() {
        None
    } else if sheets[from].name == name {
        Some(sheets[from])
    } else {
        sheet_from(sheets, name, from + 1)
    }
}

/// The sheet of a workbook with the given name: the first, where several
/// have it.
pub open spec fn sheet_of(workbook: WorkbookView, name: Seq<char>) -> Option<SheetView> {
    sheet_from(workbook.sheets, name, 0)
}

/// The cell of a sheet in the given row and column, where the sheet's lists
/// reach it.
pub open spec fn cell_of(sheet: SheetView, row: int, col: int) -> Option<CellView> {
    if 1 <= row <= sheet.rows.len() && 1 <= col <= sheet.rows[row - 1].len() {
        Some(sheet.rows[row - 1][col - 1])
    } else {
        None
    }
}

/// The cell of a workbook in the given sheet, row and column.
pub open spec fn cell_at(workbook: WorkbookView, sheet: Seq<char>, row: int, col: int) -> Option<
    CellView,
> {
    match sheet_of(workbook, sheet) {
        Some(s) => cell_of(s, row, col),
        None => None,
    }
}

/// The text of a cell of a sheet, empty where the cell is missing or has no
/// text.
pub open spec fn text_in(sheet: SheetView, row: int, col: int) -> Seq<char> {
    match cell_of(sheet, row, col) {
        Some(cell) => match cell.text {
            Some(text) => text,
            None => Seq::empty(),
        },
        None => Seq::empty(),
    }
}

/// The names of the sheets that a workbook holds.
pub open spec fn workbook_sheets(workbook: WorkbookView) -> Set<Seq<char>> {
    Set::new(|name: Seq<char>| sheet_of(workbook, name) is Some)
}

/// The text of each cell that has one, by sheet name, row and column.
pub open spec fn workbook_texts(workbook: WorkbookView) -> Map<(Seq<char>, int, int), Seq<char>> {
    Map::new(
        |k: (Seq<char>, int, int)|
            cell_at(workbook, k.0, k.1, k.2) is Some && cell_at(workbook, k.0, k.1, k.2)->0.text
                is Some,
        |k: (Seq<char>, int, int)| cell_at(workbook, k.0, k.1, k.2)->0.text->0,
    )
}

/// The format of each formatted cell, by sheet name, row and column.
pub open spec fn workbook_formats(workbook: WorkbookView) -> Map<
    (Seq<char>, int, int),
    CellFormatView,
> {
    Map::new(
        |k: (Seq<char>, int, int)|
            cell_at(workbook, k.0, k.1, k.2) is Some && cell_at(workbook, k.0, k.1, k.2)->0.format
                is Some,
        |k: (Seq<char>, int, int)| cell_at(workbook, k.0, k.1, k.2)->0.format->0,
    )
}

/// The font of each formatted cell, by sheet name, row and column.
pub open spec fn workbook_fonts(workbook: WorkbookView) -> Map<(Seq<char>, int, int), CellFontView> {
    Map::new(
        |k: (Seq<char>, int, int)| workbook_formats(workbook).contains_key(k),
        |k: (Seq<char>, int, int)| workbook_formats(workbook)[k].font,
    )
}

/// The fill colour of each formatted cell, by sheet name, row and column.
pub open spec fn workbook_fills(workbook: WorkbookView) -> Map<(Seq<char>, int, int), CellColor> {
    Map::new(
        |k: (Seq<char>, int, int)| workbook_formats(workbook).contains_key(k),
        |k: (Seq<char>, int, int)| workbook_formats(workbook)[k].fill,
    )
}

/// The number of the last row of each sheet.
pub open spec fn workbook_max_rows(workbook: WorkbookView) -> Map<Seq<char>, u32> {
    Map::new(
        |name: Seq<char>| sheet_of(workbook, name) is Some,
        |name: Seq<char>| sheet_of(workbook, name)->0.max_row,
    )
}

/// The default row height of each sheet.
pub open spec fn workbook_row_heights(workbook: WorkbookView) -> Map<Seq<char>, Real> {
    Map::new(
        |name: Seq<char>| sheet_of(workbook, name) is Some,
        |name: Seq<char>| sheet_of(workbook, name)->0.default_row_height,
    )
}

/// The content of an optional sheet.
pub open spec fn sheet_view(o: Option<&Sheet>) -> Option<SheetView> {
    match o {
        Some(s) => Some(s@),
        None => None,
    }
}

/// The content of an optional cell.
pub open spec fn cell_view(o: Option<&Cell>) -> Option<CellView> {
    match o {
        Some(c) => Some(c@),
        None => None,
    }
}

/// Finds the sheet of a workbook with the given name.
pub fn find_sheet<'a>(workbook: &'a Workbook, sheet_name: &str) -> (r: Option<&'a Sheet>)
    ensures
        sheet_view(r) == sheet_of(workbook@, sheet_name@),
{
    let wanted = sheet_name.to_owned();
    let mut i: usize = 0;
    while i < workbook.sheets.len()
        invariant
            i <= workbook.sheets@.len(),
            wanted@ == sheet_name@,
            sheet_of(workbook@, sheet_name@) == sheet_from(workbook@.sheets, sheet_name@, i as int),
        decreases workbook.sheets.len() - i,
    {
        let sheet = &workbook.sheets[i];
        assert(workbook@.sheets[i as int] == sheet@);
        if sheet.name == wanted {
            return Some(sheet);
        }
        i += 1;
    }
    None
}

/// Finds the cell of a sheet in the given row and column.
pub fn find_cell<'a>(sheet: &'a Sheet, row: u32, col: u32) -> (r: Option<&'a Cell>)
    ensures
        cell_view(r) == cell_of(sheet@, row as int, col as int),
{
    if row == 0 || col == 0 {
        return None;
    }
    let r = (row - 1) as usize;
    if r >= sheet.rows.len() {
        return None;
    }
    let cells = &sheet.rows[r];
    assert(sheet@.rows[r as int] == row_view(cells@));
    let c = (col - 1) as usize;
    if c >= cells.len() {
        return None;
    }
    assert(sheet@.rows[r as int][c as int] == cells@[c as int]@);
    Some(&cells[c])
}

/// Reads the text of a cell of a sheet, empty where the cell is missing or
/// has no text.
pub fn sheet_text(sheet: &Sheet, row: u32, col: u32) -> (text: String)
    ensures
        text@ == text_in(sheet@, row as int, col as int),
{
    match find_cell(sheet, row, col) {
        Some(cell) => match &cell.text {
            Some(text) => text.clone(),
            None => String::new(),
        },
        None => String::new(),
    }
}

/// Finds the cell of a workbook in the given sheet, row and column.
pub fn read_cell<'a>(workbook: &'a Workbook, sheet_name: &str, row: u32, col: u32) -> (r: Option<
    &'a Cell,
>)
    ensures
        cell_view(r) == cell_at(workbook@, sheet_name@, row as int, col as int),
{
    match find_sheet(workbook, sheet_name) {
        Some(sheet) => find_cell(sheet, row, col),
        None => None,
    }
}

/// Tells whether a workbook holds a sheet of the given name.
pub fn has_sheet(workbook: &Workbook, sheet_name: &str) -> (b: bool)
    ensures
        b == workbook_sheets(workbook@).contains(sheet_name@),
{
    find_sheet(workbook, sheet_name).is_some()
}

/// Reads the text of a cell: none where the sheet or the cell is missing or
/// the cell has no text.
pub fn read_cell_text(workbook: &Workbook, sheet_name: &str, row: u32, col: u32) -> (r: Option<
    String,
>)
    ensures
        r is Some <==> workbook_texts(workbook@).contains_key(
            (sheet_name@, row as int, col as int),
        ),
        r matches Some(t) ==> t@ == workbook_texts(workbook@)[(
            sheet_name@,
            row as int,
            col as int,
        )],
{
    match read_cell(workbook, sheet_name, row, col) {
        Some(cell) => match &cell.text {
            Some(t) => Some(t.clone()),
            None => None,
        },
        None => None,
    }
}

/// Reads the font of a cell: none where the sheet or the cell is missing or
/// the cell has no format.
pub fn read_cell_font(workbook: &Workbook, sheet_name: &str, row: u32, col: u32) -> (r: Option<
    CellFont,
>)
    ensures
        r is Some <==> workbook_fonts(workbook@).contains_key((sheet_name@, row as int, col as int)),
        r matches Some(f) ==> f@ == workbook_fonts(workbook@)[(sheet_name@, row as int, col as int)],
{
    match read_cell(workbook, sheet_name, row, col) {
        Some(cell) => match &cell.format {
            Some(f) => Some(
                CellFont {
                    name: f.font.name.clone(),
                    size: f.font.size,
                    color: f.font.color,
                    bold: f.font.bold,
                    italic: f.font.italic,
                },
            ),
            None => None,
        },
        None => None,
    }
}

/// Reads the fill colour of a cell: none exactly where the cell has no font
/// either.
pub fn read_cell_fill(workbook: &Workbook, sheet_name: &str, row: u32, col: u32) -> (r: Option<
    CellColor,
>)
    ensures
        r is Some <==> workbook_fills(workbook@).contains_key((sheet_name@, row as int, col as int)),
        r is Some <==> workbook_fonts(workbook@).contains_key((sheet_name@, row as int, col as int)),
        r matches Some(c) ==> c == workbook_fills(workbook@)[(sheet_name@, row as int, col as int)],
{
    match read_cell(workbook, sheet_name, row, col) {
        Some(cell) => match &cell.format {
            Some(f) => Some(f.fill),
            None => None,
        },
        None => None,
    }
}

/// Reads the number of a sheet's last row: none where the workbook has no
/// such sheet.
pub fn sheet_max_row(workbook: &Workbook, sheet_name: &str) -> (r: Option<u32>)
    ensures
        r is Some <==> workbook_sheets(workbook@).contains(sheet_name@),
        r matches Some(m) ==> workbook_max_rows(workbook@).contains_key(sheet_name@)
            && workbook_max_rows(workbook@)[sheet_name@] == m,
{
    match find_sheet(workbook, sheet_name) {
        Some(sheet) => Some(sheet.max_row),
        None => None,
    }
}

/// Reads the default row height of a sheet: none where the workbook has no
/// such sheet.
pub fn sheet_default_row_height(workbook: &Workbook, sheet_name: &str) -> (r: Option<Real>)
    ensures
        r is Some <==> workbook_sheets(workbook@).contains(sheet_name@),
        r matches Some(h) ==> workbook_row_heights(workbook@).contains_key(sheet_name@)
            && workbook_row_heights(workbook@)[sheet_name@] == h,
{
    match find_sheet(workbook, sheet_name) {
        Some(sheet) => Some(sheet.default_row_height),
        None => None,
    }
}

} // verus!
