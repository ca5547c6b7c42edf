use invoice_scanner::letters::{col_index_to_letter, column_index_to_letter};

#[test]
fn first_and_last_single_letters() {
    assert_eq!(column_index_to_letter(0), "A");
    assert_eq!(column_index_to_letter(1), "B");
    assert_eq!(column_index_to_letter(25), "Z");
}

#[test]
fn two_letter_columns() {
    assert_eq!(column_index_to_letter(26), "AA");
    assert_eq!(column_index_to_letter(27), "AB");
    assert_eq!(column_index_to_letter(51), "AZ");
    assert_eq!(column_index_to_letter(52), "BA");
    assert_eq!(column_index_to_letter(701), "ZZ");
}

#[test]
fn three_letter_columns() {
    assert_eq!(column_index_to_letter(702), "AAA");
    assert_eq!(col_index_to_letter(16383), "XFD");
}

#[test]
fn wide_and_narrow_indexes_agree() {
    for index in 0u16..2000 {
        assert_eq!(column_index_to_letter(index), col_index_to_letter(index as u32));
    }
}

#[test]
fn largest_index_has_letters_only() {
    let letters = col_index_to_letter(u32::MAX);
    assert!(!letters.is_empty());
    assert!(letters.chars().all(|c| c.is_ascii_uppercase()));
}
