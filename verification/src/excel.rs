//! Headers, samples and cell texts for the mapping view and the writer.

use vstd::prelude::*;
use vstd::string::StringExecFns;
use crate::letters::{col_index_to_letter, column_letters};
use crate::sheet::{opt_texts_view, range_blanks, range_row_blanks, range_row_texts, range_texts};
use crate::text::{
    chars_contain, contains_text, is_blank, joined, str_chars, string_from_chars, to_uppercase,
    trim_chars, uppercase_of,
};
use vstd::string::StringSliceAdditionalSpecFns;

verus! {

/// A header for the mapping view: column letters, header text, column index.
#[derive(Debug, PartialEq, Eq)]
pub struct ExcelHeader {
    pub column_letter: String,
    pub header_text: String,
    pub column_index: u32,
}

/// The mathematical content of an [`ExcelHeader`].
pub struct ExcelHeaderView {
    pub column_letter: Seq<char>,
    pub header_text: Seq<char>,
    pub column_index: u32,
}

impl View for ExcelHeader {
    type V = ExcelHeaderView;

    open spec fn view(&self) -> ExcelHeaderView {
        ExcelHeaderView {
            column_letter: self.column_letter@,
            header_text: self.header_text@,
            column_index: self.column_index,
        }
    }
}

/// Rows sampled for the mapping view.
pub const SAMPLE_ROWS: usize = 5;

/// Rows below the header that the analysis looks at for the last data row.
pub const MAX_LAST_ROW_SCAN: usize = 2000;

/// Empty rows in a row that end the search for the last used row.
pub const EMPTY_ROW_RUN: u32 = 100;

/// The contents of a list of texts.
pub open spec fn strings_view(texts: Seq<String>) -> Seq<Seq<char>> {
    Seq::new(texts.len(), |i: int| texts[i]@)
}

/// The contents of a list of lists of texts.
pub open spec fn columns_of_strings(columns: Seq<Vec<String>>) -> Seq<Seq<Seq<char>>> {
    Seq::new(columns.len(), |i: int| strings_view(columns[i]@))
}

/// The text of a cell, empty where it has none.
pub open spec fn cell_string(cell: Option<Seq<char>>) -> Seq<char> {
    match cell {
        Some(t) => t,
        None => Seq::empty(),
    }
}

/// The texts of a row's cells.
pub open spec fn row_strings(row: Seq<Option<Seq<char>>>) -> Seq<Seq<char>> {
    Seq::new(row.len(), |i: int| cell_string(row[i]))
}

/// The 0-based index of a 1-based header row; row 1 where none is given.
pub open spec fn header_index(header_row: Option<u32>) -> int {
    match header_row {
        Some(r) => if r == 0 {
            0
        } else {
            r - 1
        },
        None => 0,
    }
}

/// The texts of the header row, none where the range has no such row.
pub open spec fn header_strings(texts: Seq<Seq<Option<Seq<char>>>>, header_row: Option<u32>) -> Seq<
    Seq<char>,
> {
    let at = header_index(header_row);
    if at < texts.len() {
        row_strings(texts[at])
    } else {
        Seq::empty()
    }
}

/// The headers of a row of texts: each text with its position as column
/// index and the letters of that index.
pub open spec fn excel_headers_of(raw: Seq<Seq<char>>) -> Seq<ExcelHeaderView> {
    Seq::new(
        raw.len(),
        |i: int|
            ExcelHeaderView {
                column_letter: column_letters(i as u32 as nat),
                header_text: raw[i],
                column_index: i as u32,
            },
    )
}

fn header_row_index(header_row: Option<u32>) -> (at: usize)
    ensures
        at == header_index(header_row),
{
    match header_row {
        Some(r) => if r == 0 {
            0
        } else {
            (r - 1) as usize
        },
        None => 0,
    }
}

/// The texts of one row of a range, `None` where the range has no such row.
fn row_texts(range: &calamine::Range<calamine::Data>, row: usize) -> (r: Option<Vec<String>>)
    ensures
        r is Some <==> row < range_texts(*range).len(),
        r is Some ==> range_texts(*range).len() <= usize::MAX,
        r matches Some(texts) ==> strings_view(texts@) == row_strings(
            range_texts(*range)[row as int],
        ),
{
    match range_row_texts(range, row) {
        None => None,
        Some(cells) => {
            let mut texts: Vec<String> = Vec::new();
            let mut i: usize = 0;
            let ghost wanted = row_strings(range_texts(*range)[row as int]);
            while i < cells.len()
                invariant
                    i <= cells@.len(),
                    texts@.len() == i,
                    wanted.len() == cells@.len(),
                    forall|k: int|
                        0 <= k < cells@.len() ==> wanted[k] == cell_string(
                            #[trigger] opt_texts_view(cells@)[k],
                        ),
                    forall|k: int| 0 <= k < i ==> (#[trigger] texts@[k])@ == wanted[k],
                decreases cells.len() - i,
            {
                assert(wanted[i as int] == cell_string(opt_texts_view(cells@)[i as int]));
                let text = match &cells[i] {
                    Some(t) => t.clone(),
                    None => String::new(),
                };
                texts.push(text);
                i += 1;
            }
            assert(strings_view(texts@) =~= wanted);
            Some(texts)
        },
    }
}

/// Reads the header row of a sheet as texts, in column order. The row is
/// given 1-based; row 1 is taken where none is given. A range without that
/// row has no headers.
pub fn read_excel_headers(range: &calamine::Range<calamine::Data>, header_row: Option<u32>) -> (r:
    Vec<String>)
    ensures
        strings_view(r@) == header_strings(range_texts(*range), header_row),
{
    match row_texts(range, header_row_index(header_row)) {
        Some(texts) => texts,
        None => {
            let texts: Vec<String> = Vec::new();
            assert(strings_view(texts@) =~= Seq::<Seq<char>>::empty());
            texts
        },
    }
}

/// Reads the header row of a sheet as headers for the mapping view: each
/// header text with its 0-based position and the letters of that position.
pub fn get_excel_headers(range: &calamine::Range<calamine::Data>, header_row: u32) -> (r: Vec<
    ExcelHeader,
>)
    ensures
        r@.len() == header_strings(range_texts(*range), Some(header_row)).len(),
        forall|i: int|
            0 <= i < r@.len() ==> (#[trigger] r@[i])@ == excel_headers_of(
                header_strings(range_texts(*range), Some(header_row)),
            )[i],
{
    let raw = read_excel_headers(range, Some(header_row));
    let ghost wanted = header_strings(range_texts(*range), Some(header_row));
    let mut out: Vec<ExcelHeader> = Vec::new();
    let mut i: usize = 0;
    while i < raw.len()
        invariant
            i <= raw@.len(),
            out@.len() == i,
            strings_view(raw@) == wanted,
            forall|k: int| 0 <= k < i ==> (#[trigger] out@[k])@ == excel_headers_of(wanted)[k],
        decreases raw.len() - i,
    {
        let index: u32 = #[verifier::truncate]
        (i as u32);
        assert(strings_view(raw@)[i as int] == raw@[i as int]@);
        out.push(
            ExcelHeader {
                column_letter: col_index_to_letter(index),
                header_text: raw[i].clone(),
                column_index: index,
            },
        );
        i += 1;
    }
    out
}

/// The non-empty texts of column `col` in rows `from..to`, in row order.
pub open spec fn column_cells(texts: Seq<Seq<Option<Seq<char>>>>, col: int, from: int, to: int) -> Seq<
    Seq<char>,
>
    decreases to - from,
{
    if to <= from {
        Seq::empty()
    } else {
        let before = column_cells(texts, col, from, to - 1);
        let row = texts[to - 1];
        if col < row.len() && cell_string(row[col]).len() > 0 {
            before.push(cell_string(row[col]))
        } else {
            before
        }
    }
}

/// The row after the last sampled one.
pub open spec fn sample_end(texts: Seq<Seq<Option<Seq<char>>>>, first: int, max_rows: int) -> int {
    if first + max_rows < texts.len() {
        first + max_rows
    } else {
        texts.len() as int
    }
}

/// The sample values of each column: the non-empty texts of up to `max_rows`
/// rows below the header row. There are as many columns as the first sampled
/// row has cells, none where no row is sampled.
pub open spec fn column_samples_of(
    texts: Seq<Seq<Option<Seq<char>>>>,
    header_row: Option<u32>,
    max_rows: int,
) -> Seq<Seq<Seq<char>>> {
    let first = header_index(header_row) + 1;
    let end = sample_end(texts, first, max_rows);
    if first >= end {
        Seq::empty()
    } else {
        Seq::new(texts[first].len(), |col: int| column_cells(texts, col, first, end))
    }
}

/// Reads sample values of each column from the rows below the header row,
/// column by column, leaving empty cells out.
pub fn read_excel_column_samples(
    range: &calamine::Range<calamine::Data>,
    header_row: Option<u32>,
    max_rows: usize,
) -> (r: Vec<Vec<String>>)
    ensures
        columns_of_strings(r@) == column_samples_of(
            range_texts(*range),
            header_row,
            max_rows as int,
        ),
{
    let ghost texts = range_texts(*range);
    let first: usize = header_row_index(header_row) + 1;
    let mut rows: Vec<Vec<String>> = Vec::new();
    let mut at: usize = first;
    while rows.len() < max_rows
        invariant
            texts == range_texts(*range),
            at == first + rows@.len(),
            rows@.len() <= max_rows,
            first <= u32::MAX,
            at <= texts.len() || rows@.len() == 0,
            forall|k: int|
                0 <= k < rows@.len() ==> strings_view((#[trigger] rows@[k])@) == row_strings(
                    texts[first + k],
                ),
        ensures
            texts == range_texts(*range),
            first + rows@.len() == sample_end(texts, first as int, max_rows as int) || (rows@.len()
                == 0 && first >= texts.len()),
            forall|k: int|
                0 <= k < rows@.len() ==> strings_view((#[trigger] rows@[k])@) == row_strings(
                    texts[first + k],
                ),
        decreases max_rows - rows.len(),
    {
        match row_texts(range, at) {
            Some(row) => {
                rows.push(row);
                at += 1;
            },
            None => {
                break ;
            },
        }
    }
    let mut columns: Vec<Vec<String>> = Vec::new();
    if rows.len() == 0 {
        assert(columns_of_strings(columns@) =~= Seq::<Seq<Seq<char>>>::empty());
        return columns;
    }
    let ghost end = first + rows@.len();
    let num_cols = rows[0].len();
    assert(strings_view(rows@[0]@).len() == texts[first as int].len());
    let mut col: usize = 0;
    while col < num_cols
        invariant
            col <= num_cols,
            columns@.len() == col,
            num_cols == texts[first as int].len(),
            end == first + rows@.len(),
            forall|k: int|
                0 <= k < rows@.len() ==> strings_view((#[trigger] rows@[k])@) == row_strings(
                    texts[first + k],
                ),
            forall|c: int|
                0 <= c < col ==> strings_view((#[trigger] columns@[c])@) == column_cells(
                    texts,
                    c,
                    first as int,
                    end,
                ),
        decreases num_cols - col,
    {
        let mut column: Vec<String> = Vec::new();
        let mut k: usize = 0;
        assert(strings_view(column@) =~= column_cells(texts, col as int, first as int, first as int));
        while k < rows.len()
            invariant
                k <= rows@.len(),
                forall|j: int|
                    0 <= j < rows@.len() ==> strings_view((#[trigger] rows@[j])@) == row_strings(
                        texts[first + j],
                    ),
                strings_view(column@) == column_cells(texts, col as int, first as int, first + k),
            decreases rows.len() - k,
        {
            let row = &rows[k];
            let ghost before = strings_view(column@);
            assert(strings_view(row@) == row_strings(texts[first + k]));
            if col < row.len() {
                assert(strings_view(row@)[col as int] == row@[col as int]@);
                if row[col].as_str().unicode_len() > 0 {
                    column.push(row[col].clone());
                    assert(strings_view(column@) =~= before.push(row@[col as int]@));
                }
            }
            k += 1;
        }
        columns.push(column);
        col += 1;
    }
    assert(columns_of_strings(columns@) =~= column_samples_of(texts, header_row, max_rows as int));
    columns
}

/// Every cell of a row is empty.
pub open spec fn all_blank(row: Seq<bool>) -> bool {
    forall|i: int| 0 <= i < row.len() ==> #[trigger] row[i]
}

/// The last used row, 0-based, that a scan of the rows from `row` on finds,
/// given the one found before and the number of empty rows seen since. The
/// scan ends at the hundredth empty row in a row.
pub open spec fn scan_used(blanks: Seq<Seq<bool>>, row: int, last: Option<int>, empties: int) -> Option<
    int,
>
    decreases blanks.len() - row,
{
    if row < 0 || row >= blanks.len() {
        last
    } else if !all_blank(blanks[row]) {
        scan_used(blanks, row + 1, Some(row), 0)
    } else if empties + 1 >= EMPTY_ROW_RUN {
        last
    } else {
        scan_used(blanks, row + 1, last, empties + 1)
    }
}

/// The 1-based number of the last row, from the header row on, that holds a
/// cell that is not empty; the header row's number where there is none.
pub open spec fn last_used_row(blanks: Seq<Seq<bool>>, header_row: u32) -> u32 {
    match scan_used(blanks, header_index(Some(header_row)), None, 0) {
        Some(r) => (r + 1) as u32,
        None => header_row,
    }
}

fn row_is_blank(cells: &Vec<bool>) -> (b: bool)
    ensures
        b == all_blank(cells@),
{
    let mut i: usize = 0;
    while i < cells.len()
        invariant
            i <= cells@.len(),
            forall|k: int| 0 <= k < i ==> #[trigger] cells@[k],
        decreases cells.len() - i,
    {
        if !cells[i] {
            return false;
        }
        i += 1;
    }
    true
}

/// Finds the 1-based number of the last row that holds any cell that is not
/// empty, scanning from the header row down and stopping after 100 empty
/// rows in a row. The header row's number is reported where no row holds one.
pub fn find_last_data_row(range: &calamine::Range<calamine::Data>, header_row: u32) -> (r: u32)
    ensures
        r == last_used_row(range_blanks(*range), header_row),
{
    let ghost blanks = range_blanks(*range);
    let start = header_row_index(Some(header_row));
    let mut last: Option<usize> = None;
    let mut empties: u32 = 0;
    let mut row: usize = start;
    loop
        invariant_except_break
            blanks == range_blanks(*range),
            empties < EMPTY_ROW_RUN,
            last matches Some(l) ==> l < row,
            scan_used(blanks, start as int, None, 0) == scan_used(
                blanks,
                row as int,
                match last {
                    Some(l) => Some(l as int),
                    None => None,
                },
                empties as int,
            ),
        ensures
            last matches Some(l) ==> l < usize::MAX,
            scan_used(blanks, start as int, None, 0) == match last {
                Some(l) => Some(l as int),
                None => None::<int>,
            },
        decreases blanks.len() - row,
    {
        match range_row_blanks(range, row) {
            None => {
                break ;
            },
            Some(cells) => {
                if !row_is_blank(&cells) {
                    last = Some(row);
                    empties = 0;
                } else {
                    empties += 1;
                    if empties >= EMPTY_ROW_RUN {
                        break ;
                    }
                }
                row += 1;
            },
        }
    }
    match last {
        Some(l) => {
            let n: u32 = #[verifier::truncate]
            ((l + 1) as u32);
            n
        },
        None => header_row,
    }
}

/// What is written into a cell in place of a text: control characters other
/// than tab, line feed and carriage return are dropped, `&` is spelled out,
/// and angle brackets become spaces.
pub open spec fn sanitized(s: Seq<char>) -> Seq<char>
    decreases s.len(),
{
    if s.len() == 0 {
        Seq::empty()
    } else {
        sanitized(s.drop_last()) + sanitized_char(s.last())
    }
}

/// What one character is replaced by.
pub open spec fn sanitized_char(c: char) -> Seq<char> {
    let u = c as u32;
    if c == '\t' || c == '\n' || c == '\r' {
        seq![c]
    } else if u < 0x20 || u == 0x7F || u == 0xFFFE || u == 0xFFFF {
        Seq::empty()
    } else if c == '&' {
        seq![' ', 'a', 'n', 'd', ' ']
    } else if c == '<' || c == '>' {
        seq![' ']
    } else {
        seq![c]
    }
}

/// Makes a text safe to write into a cell.
pub fn sanitize_cell(s: &str) -> (r: String)
    ensures
        r@ == sanitized(s@),
{
    let chars = str_chars(s);
    let mut out: Vec<char> = Vec::new();
    let mut i: usize = 0;
    while i < chars.len()
        invariant
            i <= chars@.len(),
            out@ == sanitized(chars@.subrange(0, i as int)),
        decreases chars.len() - i,
    {
        let c = chars[i];
        let u = c as u32;
        let ghost before = out@;
        assert(chars@.subrange(0, i + 1).drop_last() =~= chars@.subrange(0, i as int));
        if c == '\t' || c == '\n' || c == '\r' {
            out.push(c);
            assert(out@ =~= before + seq![c]);
        } else if u < 0x20 || u == 0x7F || u == 0xFFFE || u == 0xFFFF {
            assert(out@ =~= before + Seq::<char>::empty());
        } else if c == '&' {
            out.push(' ');
            out.push('a');
            out.push('n');
            out.push('d');
            out.push(' ');
            assert(out@ =~= before + seq![' ', 'a', 'n', 'd', ' ']);
        } else if c == '<' || c == '>' {
            out.push(' ');
            assert(out@ =~= before + seq![' ']);
        } else {
            out.push(c);
            assert(out@ =~= before + seq![c]);
        }
        i += 1;
    }
    assert(chars@.subrange(0, chars@.len() as int) =~= chars@);
    string_from_chars(&out)
}

/// The digit of a value below 36: `0` to `9`, then `a` to `z`.
pub open spec fn digit36(d: int) -> char {
    if d < 10 {
        (48 + d) as u8 as char
    } else {
        (87 + d) as u8 as char
    }
}

/// A number written to base 36, without leading zeros.
pub open spec fn radix36(n: nat) -> Seq<char>
    decreases n,
{
    if n < 36 {
        seq![digit36(n as int)]
    } else {
        radix36(n / 36).push(digit36((n % 36) as int))
    }
}

fn digit36_char(d: u32) -> (c: char)
    requires
        d < 36,
    ensures
        c == digit36(d as int),
{
    if d < 10 {
        (48 + d as u8) as char
    } else {
        (87 + d as u8) as char
    }
}

/// Writes a number to base 36 with the digits `0` to `9` and `a` to `z`.
pub fn to_radix36(n: u32) -> (s: String)
    ensures
        s@ == radix36(n as nat),
{
    let mut m: u32 = n;
    let mut acc: Vec<char> = Vec::new();
    while m >= 36
        invariant
            radix36(n as nat) == radix36(m as nat) + acc@,
        decreases m,
    {
        let ghost before = acc@;
        acc.insert(0, digit36_char(m % 36));
        assert(radix36(m as nat) + before =~= radix36((m / 36) as nat) + acc@);
        m = m / 36;
    }
    let ghost before = acc@;
    acc.insert(0, digit36_char(m));
    assert(radix36(m as nat) + before =~= acc@);
    string_from_chars(&acc)
}

/// A number written in decimal, without leading zeros.
pub open spec fn decimal(n: nat) -> Seq<char>
    decreases n,
{
    if n < 10 {
        seq![digit36(n as int)]
    } else {
        decimal(n / 10).push(digit36((n % 10) as int))
    }
}

/// The reference of a cell: the column's letters in capitals, then the row
/// number in decimal.
pub open spec fn cell_reference_of(letters: Seq<char>, row: u32) -> Seq<char> {
    uppercase_of(letters) + decimal(row as nat)
}

/// Writes a number in decimal.
pub fn decimal_string(n: u64) -> (r: String)
    ensures
        r@ == decimal(n as nat),
{
    let mut m: u64 = n;
    let mut acc: Vec<char> = Vec::new();
    while m >= 10
        invariant
            decimal(n as nat) == decimal(m as nat) + acc@,
        decreases m,
    {
        let ghost before = acc@;
        acc.insert(0, digit36_char((m % 10) as u32));
        assert(decimal(m as nat) + before =~= decimal((m / 10) as nat) + acc@);
        m = m / 10;
    }
    let ghost before = acc@;
    acc.insert(0, digit36_char(m as u32));
    assert(decimal(m as nat) + before =~= acc@);
    string_from_chars(&acc)
}

/// Writes the reference of a cell, such as `B7`.
pub fn cell_reference(letters: &str, row: u32) -> (r: String)
    ensures
        r@ == cell_reference_of(letters@, row),
{
    let digits = decimal_string(row as u64);
    let mut r = to_uppercase(letters);
    r.append(digits.as_str());
    r
}

/// A writer's failure names a file that is locked or open elsewhere.
pub open spec fn names_locked_file(message: Seq<char>) -> bool {
    contains_text(message, "Permission denied"@) || contains_text(message, "being used"@)
}

/// The message shown for a failure to write: a request to close the file
/// where the failure names a locked file, else the failure after a fixed
/// introduction.
pub open spec fn write_error_of(message: Seq<char>) -> Seq<char> {
    if names_locked_file(message) {
        "Please close the file in Excel first."@
    } else {
        "Cannot write to file: "@ + message
    }
}

/// Turns a writer's failure into a short message for the user.
pub fn write_error_message(message: &str) -> (r: String)
    ensures
        r@ == write_error_of(message@),
{
    let hay = str_chars(message);
    let denied = str_chars("Permission denied");
    let used = str_chars("being used");
    if chars_contain(&hay, &denied) || chars_contain(&hay, &used) {
        "Please close the file in Excel first.".to_owned()
    } else {
        let mut r = "Cannot write to file: ".to_owned();
        r.append(message);
        r
    }
}

/// A failure to open names a file that cannot be opened or accessed.
pub open spec fn names_closed_file(message: Seq<char>) -> bool {
    ||| contains_text(message, "Could not open"@)
    ||| contains_text(message, "permission"@)
    ||| contains_text(message, "Permission"@)
}

/// The message shown for a failure to open a workbook for writing.
pub open spec fn open_error_of(message: Seq<char>) -> Seq<char> {
    if names_closed_file(message) {
        "Please close the file in Excel first."@
    } else {
        "Could not open Excel file: "@ + message
    }
}

/// Turns a failure to open a workbook into a short message for the user.
pub fn open_error_message(message: &str) -> (r: String)
    ensures
        r@ == open_error_of(message@),
{
    let hay = str_chars(message);
    let open = str_chars("Could not open");
    let lower = str_chars("permission");
    let upper = str_chars("Permission");
    if chars_contain(&hay, &open) || chars_contain(&hay, &lower) || chars_contain(&hay, &upper) {
        "Please close the file in Excel first.".to_owned()
    } else {
        let mut r = "Could not open Excel file: ".to_owned();
        r.append(message);
        r
    }
}

/// One text comes before another, or equals it, in the order of strings:
/// character by character, by code point; a prefix comes first.
pub open spec fn text_le(a: Seq<char>, b: Seq<char>) -> bool
    decreases a.len(),
{
    if a.len() == 0 {
        true
    } else if b.len() == 0 {
        false
    } else if a[0] != b[0] {
        a[0] < b[0]
    } else {
        text_le(a.drop_first(), b.drop_first())
    }
}

/// A list of texts stands in ascending order.
pub open spec fn ascending(texts: Seq<Seq<char>>) -> bool {
    forall|i: int, j: int| 0 <= i <= j < texts.len() ==> text_le(#[trigger] texts[i], #[trigger] texts[j])
}

/// `arranged` holds the texts of `texts`, each as often, in ascending order.
pub open spec fn is_sorted_arrangement(arranged: Seq<Seq<char>>, texts: Seq<Seq<char>>) -> bool {
    ascending(arranged) && arranged.to_multiset() == texts.to_multiset()
}

/// `<[String]>::sort`: afterwards the list holds the same texts, each as
/// often as before, in the ascending order of strings.
#[verifier::external_body]
pub(crate) fn sort_strings(texts: &mut Vec<String>)
    ensures
        is_sorted_arrangement(strings_view(final(texts)@), strings_view(old(texts)@)),
{
    texts.sort()
}

/// The hash of a sequence of bytes as an unsigned residue: each byte is
/// added to 31 times the hash so far, in 32 bits.
pub open spec fn hash_residue(bytes: Seq<u8>) -> int
    decreases bytes.len(),
{
    if bytes.len() == 0 {
        0
    } else {
        (31 * hash_residue(bytes.drop_last()) + bytes.last()) % 0x1_0000_0000
    }
}

/// The magnitude of the signed 32-bit number that a residue stands for.
pub open spec fn residue_magnitude(residue: int) -> int {
    if residue < 0x8000_0000 {
        residue
    } else {
        0x1_0000_0000 - residue
    }
}

/// The hash of a list of texts in a given arrangement: the texts joined by
/// `|`, hashed over their UTF-8 bytes, the magnitude written to base 36.
pub open spec fn hash_of_arrangement(arranged: Seq<Seq<char>>) -> Seq<char> {
    radix36(
        residue_magnitude(hash_residue(vstd::utf8::encode_utf8(joined(arranged, seq!['|'])))) as nat,
    )
}

/// `hash` is the schema hash of a list of headers: the hash of their sorted
/// arrangement.
pub open spec fn is_schema_hash(headers: Seq<Seq<char>>, hash: Seq<char>) -> bool {
    exists|arranged: Seq<Seq<char>>|
        is_sorted_arrangement(arranged, headers) && hash == #[trigger] hash_of_arrangement(arranged)
}

/// Every text comes before itself or equals it.
pub proof fn lemma_text_le_reflexive(a: Seq<char>)
    ensures
        text_le(a, a),
    decreases a.len(),
{
    if a.len() > 0 {
        lemma_text_le_reflexive(a.drop_first());
    }
}

/// Two texts that come before one another are the same text.
pub proof fn lemma_text_le_antisymmetric(a: Seq<char>, b: Seq<char>)
    requires
        text_le(a, b),
        text_le(b, a),
    ensures
        a == b,
    decreases a.len(),
{
    if a.len() == 0 || b.len() == 0 {
        assert(a =~= b);
    } else {
        lemma_text_le_antisymmetric(a.drop_first(), b.drop_first());
        assert(a =~= seq![a[0]] + a.drop_first());
        assert(b =~= seq![b[0]] + b.drop_first());
    }
}

/// The order of texts is transitive.
pub proof fn lemma_text_le_transitive(a: Seq<char>, b: Seq<char>, c: Seq<char>)
    requires
        text_le(a, b),
        text_le(b, c),
    ensures
        text_le(a, c),
    decreases a.len(),
{
    if a.len() > 0 && a[0] == b[0] && b[0] == c[0] {
        lemma_text_le_transitive(a.drop_first(), b.drop_first(), c.drop_first());
    }
}

/// Of two texts, one comes before the other or equals it.
pub proof fn lemma_text_le_total(a: Seq<char>, b: Seq<char>)
    ensures
        text_le(a, b) || text_le(b, a),
    decreases a.len(),
{
    if a.len() > 0 && b.len() > 0 && a[0] == b[0] {
        lemma_text_le_total(a.drop_first(), b.drop_first());
    }
}

/// A list of headers has one schema hash only.
pub proof fn lemma_schema_hash_is_unique(headers: Seq<Seq<char>>, first: Seq<char>, second: Seq<char>)
    requires
        is_schema_hash(headers, first),
        is_schema_hash(headers, second),
    ensures
        first == second,
{
    let x = choose|arranged: Seq<Seq<char>>|
        is_sorted_arrangement(arranged, headers) && first == #[trigger] hash_of_arrangement(arranged);
    let y = choose|arranged: Seq<Seq<char>>|
        is_sorted_arrangement(arranged, headers) && second == #[trigger] hash_of_arrangement(
            arranged,
        );
    let leq = |a: Seq<char>, b: Seq<char>| text_le(a, b);
    assert(vstd::relations::total_ordering(leq)) by {
        assert forall|a: Seq<char>| #[trigger] leq(a, a) by {
            lemma_text_le_reflexive(a);
        }
        assert forall|a: Seq<char>, b: Seq<char>| #[trigger] leq(a, b) && #[trigger] leq(b, a) implies a
            == b by {
            lemma_text_le_antisymmetric(a, b);
        }
        assert forall|a: Seq<char>, b: Seq<char>, c: Seq<char>| #[trigger] leq(a, b) && #[trigger] leq(
            b,
            c,
        ) implies leq(a, c) by {
            lemma_text_le_transitive(a, b, c);
        }
        assert forall|a: Seq<char>, b: Seq<char>| #[trigger] leq(a, b) || #[trigger] leq(b, a) by {
            lemma_text_le_total(a, b);
        }
    }
    assert(vstd::relations::sorted_by(x, leq));
    assert(vstd::relations::sorted_by(y, leq));
    vstd::seq_lib::lemma_sorted_unique(x, y, leq);
}

/// The schema hash does not depend on the order of the headers: a hash of a
/// list of headers is a hash of every rearrangement of it.
pub proof fn lemma_schema_hash_ignores_order(
    headers: Seq<Seq<char>>,
    rearranged: Seq<Seq<char>>,
    hash: Seq<char>,
)
    requires
        headers.to_multiset() == rearranged.to_multiset(),
        is_schema_hash(headers, hash),
    ensures
        is_schema_hash(rearranged, hash),
{
    let arranged = choose|arranged: Seq<Seq<char>>|
        is_sorted_arrangement(arranged, headers) && hash == #[trigger] hash_of_arrangement(arranged);
    assert(is_sorted_arrangement(arranged, rearranged));
}

/// A copy of a list of texts.
pub fn clone_strings(texts: &Vec<String>) -> (r: Vec<String>)
    ensures
        strings_view(r@) == strings_view(texts@),
{
    let mut r: Vec<String> = Vec::new();
    let mut i: usize = 0;
    while i < texts.len()
        invariant
            i <= texts@.len(),
            r@.len() == i,
            forall|k: int| 0 <= k < i ==> (#[trigger] r@[k])@ == texts@[k]@,
        decreases texts.len() - i,
    {
        r.push(texts[i].clone());
        i += 1;
    }
    assert(strings_view(r@) =~= strings_view(texts@));
    r
}

/// Joins texts with a `|` between them.
fn join_with_bar(parts: &Vec<String>) -> (r: String)
    ensures
        r@ == joined(strings_view(parts@), seq!['|']),
{
    let mut r = String::new();
    let mut i: usize = 0;
    let ghost all = strings_view(parts@);
    while i < parts.len()
        invariant
            i <= parts@.len(),
            all == strings_view(parts@),
            r@ == joined(all.subrange(0, i as int), seq!['|']),
        decreases parts.len() - i,
    {
        let ghost before = r@;
        assert(all.subrange(0, i + 1).drop_last() =~= all.subrange(0, i as int));
        assert(all.subrange(0, i + 1).last() == parts@[i as int]@);
        if i > 0 {
            crate::text::push_char(&mut r, '|');
            assert(r@ =~= before + seq!['|']);
        }
        r.append(parts[i].as_str());
        i += 1;
    }
    assert(all.subrange(0, parts@.len() as int) =~= all);
    r
}

/// Computes the schema hash of a list of headers: the headers are sorted and
/// joined by `|`, each byte of the result is added to 31 times the hash so
/// far in signed 32 bits, and the magnitude is written to base 36.
pub fn schema_hash(headers: &Vec<String>) -> (r: String)
    ensures
        is_schema_hash(strings_view(headers@), r@),
{
    let mut sorted = clone_strings(headers);
    sort_strings(&mut sorted);
    let normalized = join_with_bar(&sorted);
    let bytes = normalized.as_str().as_bytes();
    let mut residue: u64 = 0;
    let mut i: usize = 0;
    while i < bytes.len()
        invariant
            i <= bytes@.len(),
            residue < 0x1_0000_0000,
            residue == hash_residue(bytes@.subrange(0, i as int)),
        decreases bytes.len() - i,
    {
        assert(bytes@.subrange(0, i + 1).drop_last() =~= bytes@.subrange(0, i as int));
        residue = (31 * residue + bytes[i] as u64) % 0x1_0000_0000;
        i += 1;
    }
    assert(bytes@.subrange(0, bytes@.len() as int) =~= bytes@);
    let magnitude: u32 = if residue < 0x8000_0000 {
        residue as u32
    } else {
        (0x1_0000_0000 - residue) as u32
    };
    let r = to_radix36(magnitude);
    assert(r@ == hash_of_arrangement(strings_view(sorted@)));
    r
}

/// A list of texts without the blank texts at its end.
pub open spec fn without_trailing_blanks(texts: Seq<Seq<char>>) -> Seq<Seq<char>>
    decreases texts.len(),
{
    if texts.len() > 0 && is_blank(texts.last()) {
        without_trailing_blanks(texts.drop_last())
    } else {
        texts
    }
}

/// A row has content when one of its cells has a text that is not blank.
pub open spec fn has_content(row: Seq<Option<Seq<char>>>) -> bool {
    exists|i: int| 0 <= i < row.len() && !is_blank(cell_string(#[trigger] row[i]))
}

/// The 1-based number of the last row with content among the rows with
/// 0-based indexes `from..to`; `fallback` where none has content.
pub open spec fn last_content_row(
    texts: Seq<Seq<Option<Seq<char>>>>,
    from: int,
    to: int,
    fallback: u32,
) -> u32
    decreases to - from,
{
    if to <= from {
        fallback
    } else if has_content(texts[to - 1]) {
        to as u32
    } else {
        last_content_row(texts, from, to - 1, fallback)
    }
}

/// The result of analysing a sheet for the mapping view.
pub struct Analysis {
    pub worksheet_name: Seq<char>,
    pub headers: Seq<Seq<char>>,
    pub column_samples: Seq<Seq<Seq<char>>>,
    pub last_data_row: u32,
}

/// What an analysis of a sheet yields: the sheet's name as given, the header
/// row's texts without trailing blanks, five sample rows by column, and the
/// last row with content among the 2,000 rows below the header row (the
/// header row's own number where none has content).
pub open spec fn analysis_of(
    texts: Seq<Seq<Option<Seq<char>>>>,
    sheet_name: Seq<char>,
    header_row: u32,
) -> Analysis {
    let first = header_index(Some(header_row)) + 1;
    Analysis {
        worksheet_name: sheet_name,
        headers: without_trailing_blanks(header_strings(texts, Some(header_row))),
        column_samples: column_samples_of(texts, Some(header_row), SAMPLE_ROWS as int),
        last_data_row: last_content_row(
            texts,
            first,
            sample_end(texts, first, MAX_LAST_ROW_SCAN as int),
            first as u32,
        ),
    }
}

fn row_has_content(cells: &Vec<String>) -> (b: bool)
    ensures
        b == exists|i: int| 0 <= i < cells@.len() && !is_blank(#[trigger] strings_view(cells@)[i]),
{
    let mut i: usize = 0;
    while i < cells.len()
        invariant
            i <= cells@.len(),
            forall|k: int| 0 <= k < i ==> is_blank(#[trigger] strings_view(cells@)[k]),
        decreases cells.len() - i,
    {
        let chars = str_chars(cells[i].as_str());
        if trim_chars(&chars).len() > 0 {
            assert(!is_blank(strings_view(cells@)[i as int]));
            return true;
        }
        assert(is_blank(strings_view(cells@)[i as int]));
        i += 1;
    }
    false
}

/// Analyses one sheet for the mapping view: the sheet's name, its headers,
/// sample values by column, the last data row, and the schema hash of the
/// headers.
pub fn analyze_excel_schema(
    range: &calamine::Range<calamine::Data>,
    sheet_name: &str,
    header_row: u32,
) -> (r: (String, Vec<String>, Vec<Vec<String>>, u32, String))
    ensures
        ({
            let wanted = analysis_of(range_texts(*range), sheet_name@, header_row);
            &&& r.0@ == wanted.worksheet_name
            &&& strings_view(r.1@) == wanted.headers
            &&& columns_of_strings(r.2@) == wanted.column_samples
            &&& r.3 == wanted.last_data_row
            &&& is_schema_hash(wanted.headers, r.4@)
        }),
{
    let ghost texts = range_texts(*range);
    let mut headers = read_excel_headers(range, Some(header_row));
    let ghost raw = strings_view(headers@);
    loop
        invariant
            without_trailing_blanks(raw) == without_trailing_blanks(strings_view(headers@)),
        ensures
            without_trailing_blanks(raw) == strings_view(headers@),
        decreases headers@.len(),
    {
        let n = headers.len();
        if n == 0 {
            break ;
        }
        let chars = str_chars(headers[n - 1].as_str());
        assert(strings_view(headers@).last() == headers@[n - 1]@);
        if trim_chars(&chars).len() > 0 {
            break ;
        }
        let ghost before = strings_view(headers@);
        headers.pop();
        assert(strings_view(headers@) =~= before.drop_last());
    }
    let column_samples = read_excel_column_samples(range, Some(header_row), SAMPLE_ROWS);
    let first: usize = header_row_index(Some(header_row)) + 1;
    let mut last_data_row: u32 = first as u32;
    let mut taken: usize = 0;
    let mut at: usize = first;
    while taken < MAX_LAST_ROW_SCAN
        invariant
            texts == range_texts(*range),
            first <= u32::MAX,
            at == first + taken,
            taken <= MAX_LAST_ROW_SCAN,
            at <= texts.len() || taken == 0,
            last_data_row == last_content_row(texts, first as int, at as int, first as u32),
        ensures
            last_data_row == last_content_row(
                texts,
                first as int,
                sample_end(texts, first as int, MAX_LAST_ROW_SCAN as int),
                first as u32,
            ),
        decreases MAX_LAST_ROW_SCAN - taken,
    {
        match row_texts(range, at) {
            Some(cells) => {
                let ghost row = texts[at as int];
                assert(has_content(row) == exists|i: int|
                    0 <= i < cells@.len() && !is_blank(#[trigger] strings_view(cells@)[i])) by {
                    assert(strings_view(cells@) == row_strings(row));
                    assert(strings_view(cells@).len() == cells@.len());
                    assert(row_strings(row).len() == row.len());
                    if has_content(row) {
                        let i = choose|i: int| 0 <= i < row.len() && !is_blank(cell_string(#[trigger] row[i]));
                        assert(row_strings(row)[i] == cell_string(row[i]));
                    }
                    if exists|i: int|
                        0 <= i < cells@.len() && !is_blank(#[trigger] strings_view(cells@)[i]) {
                        let i = choose|i: int|
                            0 <= i < cells@.len() && !is_blank(#[trigger] strings_view(cells@)[i]);
                        assert(row_strings(row)[i] == cell_string(row[i]));
                    }
                }
                if row_has_content(&cells) {
                    last_data_row = #[verifier::truncate]
                    ((at + 1) as u32);
                }
                at += 1;
                taken += 1;
            },
            None => {
                break ;
            },
        }
    }
    let hash = schema_hash(&headers);
    (sheet_name.to_owned(), headers, column_samples, last_data_row, hash)
}

} // verus!
