//! What the header and sample readers read from a sheet's used range.
//!
//! A range of the `calamine` crate is opaque here. Its cells are named by the
//! functions below, row by row, and each reading function says which row of
//! them it returns. Rows and columns of a range are counted from 0.

use vstd::prelude::*;
use calamine::DataType;

verus! {

/// A cell value of the `calamine` crate.
#[verifier::external_type_specification]
#[verifier::external_body]
pub struct ExData(calamine::Data);

/// A rectangular range of cells of the `calamine` crate.
#[verifier::external_type_specification]
#[verifier::external_body]
#[verifier::reject_recursive_types(T)]
pub struct ExRange<T>(calamine::Range<T>);

/// The text of each cell of a range, row by row: `None` for a cell that is
/// empty or holds no number or text.
pub uninterp spec fn range_texts(range: calamine::Range<calamine::Data>) -> Seq<
    Seq<Option<Seq<char>>>,
>;

/// Which cells of a range are empty, row by row.
pub uninterp spec fn range_blanks(range: calamine::Range<calamine::Data>) -> Seq<Seq<bool>>;

/// The contents of a list of optional texts.
pub open spec fn opt_texts_view(texts: Seq<Option<String>>) -> Seq<Option<Seq<char>>> {
    Seq::new(
        texts.len(),
        |i: int|
            match texts[i] {
                Some(t) => Some(t@),
                None => None,
            },
    )
}

/// `Range::rows`, the row with the given index, each cell through
/// `DataType::as_string`: `None` where the range has no such row. The number
/// of rows fits the machine's word.
#[verifier::external_body]
pub(crate) fn range_row_texts(range: &calamine::Range<calamine::Data>, row: usize) -> (r: Option<
    Vec<Option<String>>,
>)
    ensures
        r is Some <==> row < range_texts(*range).len(),
        r is Some ==> range_texts(*range).len() <= usize::MAX,
        r matches Some(cells) ==> opt_texts_view(cells@) == range_texts(*range)[row as int],
{
    range.rows().nth(row).map(|cells| cells.iter().map(|c| c.as_string()).collect())
}

/// `Range::rows`, the row with the given index, each cell through
/// `DataType::is_empty`: `None` where the range has no such row. The rows are
/// those of the texts.
#[verifier::external_body]
pub(crate) fn range_row_blanks(range: &calamine::Range<calamine::Data>, row: usize) -> (r: Option<
    Vec<bool>,
>)
    ensures
        r is Some <==> row < range_texts(*range).len(),
        r is Some <==> row < range_blanks(*range).len(),
        r is Some ==> range_blanks(*range).len() <= usize::MAX,
        r matches Some(cells) ==> cells@ == range_blanks(*range)[row as int],
{
    range.rows().nth(row).map(|cells| cells.iter().map(|c| c.is_empty()).collect())
}

} // verus!
