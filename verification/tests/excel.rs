use calamine::{Data, Range};
use invoice_scanner::commands::{analyzed_schema, AnalyzedExcelSchema};
use invoice_scanner::excel::{
    analyze_excel_schema, cell_reference, find_last_data_row, get_excel_headers,
    open_error_message, read_excel_column_samples, read_excel_headers, sanitize_cell,
    schema_hash, to_radix36, write_error_message, ExcelHeader,
};

fn range_of(rows: u32, cols: u32, cells: &[(u32, u32, Data)]) -> Range<Data> {
    let mut range = Range::new((0, 0), (rows - 1, cols - 1));
    for (row, col, value) in cells {
        range.set_value((*row, *col), value.clone());
    }
    range
}

fn text(s: &str) -> Data {
    Data::String(s.to_string())
}

fn strings(items: &[&str]) -> Vec<String> {
    items.iter().map(|s| s.to_string()).collect()
}

fn sample() -> Range<Data> {
    range_of(
        6,
        4,
        &[
            (1, 0, text("Number")),
            (1, 1, text("Date")),
            (1, 2, text("  ")),
            (2, 0, Data::Int(7)),
            (2, 1, text("2024-01-05")),
            (3, 1, text("2024-01-06")),
            (3, 3, Data::Bool(true)),
            (4, 0, Data::Float(2.5)),
        ],
    )
}

#[test]
fn headers_are_read_from_the_given_row() {
    let range = sample();
    assert_eq!(read_excel_headers(&range, Some(2)), strings(&["Number", "Date", "  ", ""]));
    assert_eq!(read_excel_headers(&range, Some(1)), strings(&["", "", "", ""]));
    assert_eq!(read_excel_headers(&range, None), strings(&["", "", "", ""]));
    assert_eq!(read_excel_headers(&range, Some(0)), strings(&["", "", "", ""]));
    assert_eq!(read_excel_headers(&range, Some(7)), Vec::<String>::new());
    let empty: Range<Data> = Range::empty();
    assert_eq!(read_excel_headers(&empty, Some(1)), Vec::<String>::new());
}

#[test]
fn excel_headers_carry_letters_and_indexes() {
    let range = sample();
    let headers = get_excel_headers(&range, 2);
    assert_eq!(headers.len(), 4);
    assert_eq!(
        headers[1],
        ExcelHeader { column_letter: "B".to_string(), header_text: "Date".to_string(), column_index: 1 }
    );
    assert_eq!(headers[3].column_letter, "D");
    assert_eq!(headers[3].header_text, "");
    let wide = range_of(1, 30, &[(0, 27, text("far"))]);
    let headers = get_excel_headers(&wide, 1);
    assert_eq!(headers[27].column_letter, "AB");
    assert_eq!(headers[27].column_index, 27);
}

#[test]
fn column_samples_leave_empty_cells_out() {
    let range = sample();
    let samples = read_excel_column_samples(&range, Some(2), 10);
    assert_eq!(
        samples,
        vec![strings(&["7", "2.5"]), strings(&["2024-01-05", "2024-01-06"]), strings(&[]), strings(&[])]
    );
    let samples = read_excel_column_samples(&range, Some(2), 1);
    assert_eq!(samples, vec![strings(&["7"]), strings(&["2024-01-05"]), strings(&[]), strings(&[])]);
    assert_eq!(read_excel_column_samples(&range, Some(2), 0), Vec::<Vec<String>>::new());
    assert_eq!(read_excel_column_samples(&range, Some(6), 5), Vec::<Vec<String>>::new());
    assert_eq!(read_excel_column_samples(&range, Some(u32::MAX), usize::MAX), Vec::<Vec<String>>::new());
}

#[test]
fn last_used_row_counts_any_cell_that_is_not_empty() {
    let range = sample();
    assert_eq!(find_last_data_row(&range, 2), 5);
    assert_eq!(find_last_data_row(&range, 6), 6);
    assert_eq!(find_last_data_row(&range, 9), 9);
    let header_only = range_of(3, 2, &[(0, 0, text("Number"))]);
    assert_eq!(find_last_data_row(&header_only, 1), 1);
    assert_eq!(find_last_data_row(&header_only, 2), 2);
    let blank_text = range_of(3, 2, &[(0, 0, text("Number")), (2, 1, text(""))]);
    assert_eq!(find_last_data_row(&blank_text, 1), 3);
}

#[test]
fn last_used_row_stops_after_a_hundred_empty_rows() {
    let near = range_of(300, 1, &[(0, 0, text("h")), (100, 0, text("x"))]);
    assert_eq!(find_last_data_row(&near, 1), 101);
    let far = range_of(300, 1, &[(0, 0, text("h")), (101, 0, text("x"))]);
    assert_eq!(find_last_data_row(&far, 1), 1);
}

#[test]
fn sanitize_drops_controls_and_escapes_markup() {
    assert_eq!(sanitize_cell("plain"), "plain");
    assert_eq!(sanitize_cell("a\tb\nc\rd"), "a\tb\nc\rd");
    assert_eq!(sanitize_cell("a\u{0}b\u{1f}c\u{7f}d"), "abcd");
    assert_eq!(sanitize_cell("R&D <b>x</b>"), "R and D  b x /b ");
    assert_eq!(sanitize_cell("x\u{fffe}y\u{ffff}z"), "xyz");
    assert_eq!(sanitize_cell("Опис & ДДВ"), "Опис  and  ДДВ");
    assert_eq!(sanitize_cell(""), "");
}

#[test]
fn radix_36_uses_digits_then_small_letters() {
    assert_eq!(to_radix36(0), "0");
    assert_eq!(to_radix36(9), "9");
    assert_eq!(to_radix36(10), "a");
    assert_eq!(to_radix36(35), "z");
    assert_eq!(to_radix36(36), "10");
    assert_eq!(to_radix36(97159), "22yv");
    assert_eq!(to_radix36(2147483648), "zik0zk");
    assert_eq!(to_radix36(u32::MAX), "1z141z3");
}

#[test]
fn schema_hash_has_known_values() {
    assert_eq!(schema_hash(&strings(&[])), "0");
    assert_eq!(schema_hash(&strings(&["a"])), "2p");
    assert_eq!(schema_hash(&strings(&["b", "a"])), "22yv");
    assert_eq!(schema_hash(&strings(&["Number", "Date", "Total"])), "dykp1d");
    assert_eq!(schema_hash(&strings(&["Број", "Датум", "Вкупно", "Опис"])), "b1axwh");
}

#[test]
fn schema_hash_ignores_the_order_of_headers() {
    let a = schema_hash(&strings(&["Total", "Number", "Date"]));
    let b = schema_hash(&strings(&["Date", "Total", "Number"]));
    assert_eq!(a, b);
    assert_eq!(a, "dykp1d");
}

#[test]
fn analysis_trims_headers_and_finds_last_content() {
    let range = sample();
    let parts = analyze_excel_schema(&range, "Sheet1", 2);
    assert_eq!(parts.0, "Sheet1");
    assert_eq!(parts.1, strings(&["Number", "Date"]));
    assert_eq!(parts.2.len(), 4);
    assert_eq!(parts.2[0], strings(&["7", "2.5"]));
    assert_eq!(parts.3, 5);
    assert_eq!(parts.4, schema_hash(&strings(&["Number", "Date"])));
    let answer: AnalyzedExcelSchema = analyzed_schema(parts);
    assert_eq!(answer.worksheet_name, "Sheet1");
    assert_eq!(answer.headers, strings(&["Number", "Date"]));
    assert_eq!(answer.last_data_row, 5);
}

#[test]
fn analysis_of_header_only_sheet_reports_the_header_row() {
    let range = range_of(3, 2, &[(0, 0, text("Number")), (0, 1, text("Date")), (2, 0, Data::Bool(true))]);
    let parts = analyze_excel_schema(&range, "S", 1);
    assert_eq!(parts.3, 1);
    assert_eq!(parts.2, vec![strings(&[]), strings(&[])]);
    let parts = analyze_excel_schema(&range, "S", 5);
    assert_eq!(parts.1, Vec::<String>::new());
    assert_eq!(parts.3, 5);
    assert_eq!(parts.4, "0");
}

#[test]
fn cell_references_use_capital_letters() {
    assert_eq!(cell_reference("a", 1), "A1");
    assert_eq!(cell_reference("ab", 42), "AB42");
    assert_eq!(cell_reference("Z", 0), "Z0");
    assert_eq!(cell_reference("C", u32::MAX), "C4294967295");
}

#[test]
fn writer_failures_become_short_messages() {
    assert_eq!(write_error_message("Permission denied (os error 13)"), "Please close the file in Excel first.");
    assert_eq!(write_error_message("file is being used by another process"), "Please close the file in Excel first.");
    assert_eq!(write_error_message("disk full"), "Cannot write to file: disk full");
    assert_eq!(open_error_message("Could not open it"), "Please close the file in Excel first.");
    assert_eq!(open_error_message("no permission"), "Please close the file in Excel first.");
    assert_eq!(open_error_message("Permission denied"), "Please close the file in Excel first.");
    assert_eq!(open_error_message("bad zip"), "Could not open Excel file: bad zip");
}
