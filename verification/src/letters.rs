//! Spreadsheet column letters: bijective base 26 (`A`..`Z`, `AA`, `AB`, ...).

use vstd::prelude::*;
use crate::text::string_from_chars;

verus! {

/// The capital letter with the given offset from `A`.
pub open spec fn letter(d: nat) -> char
    recommends
        d < 26,
{
    (65 + d) as u8 as char
}

/// The letters of the column with the given 0-based index.
pub open spec fn column_letters(index: nat) -> Seq<char>
    decreases index,
{
    if index < 26 {
        seq![letter(index)]
    } else {
        column_letters((index / 26 - 1) as nat).push(letter(index % 26))
    }
}

/// Column letters are capital letters of the basic Latin alphabet, at least
/// one of them.
pub proof fn lemma_column_letters_are_capitals(index: nat)
    ensures
        column_letters(index).len() >= 1,
        forall|i: int|
            0 <= i < column_letters(index).len() ==> 'A' <= #[trigger] column_letters(index)[i] <= 'Z',
    decreases index,
{
    if index >= 26 {
        lemma_column_letters_are_capitals((index / 26 - 1) as nat);
    }
}

fn letter_char(d: u32) -> (c: char)
    requires
        d < 26,
    ensures
        c == letter(d as nat),
{
    let b: u8 = 65u8 + (d as u8);
    b as char
}

/// Column letters of a 0-based column index (0 is `A`, 25 is `Z`, 26 is `AA`).
pub fn col_index_to_letter(index: u32) -> (s: String)
    ensures
        s@ == column_letters(index as nat),
{
    let mut n: u32 = index;
    let mut acc: Vec<char> = Vec::new();
    while n >= 26
        invariant
            column_letters(index as nat) == column_letters(n as nat) + acc@,
        decreases n,
    {
        let r: u32 = n % 26;
        let ghost before = acc@;
        acc.insert(0, letter_char(r));
        let m: u32 = n / 26 - 1;
        assert(column_letters(n as nat) + before =~= column_letters(m as nat) + acc@);
        n = m;
    }
    let ghost before = acc@;
    acc.insert(0, letter_char(n));
    assert(column_letters(n as nat) + before =~= acc@);
    string_from_chars(&acc)
}

/// Column letters of a 0-based column index held in 16 bits.
pub fn column_index_to_letter(index: u16) -> (s: String)
    ensures
        s@ == column_letters(index as nat),
{
    col_index_to_letter(index as u32)
}

} // verus!
