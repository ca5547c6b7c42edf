use invoice_scanner::models::Real;
use invoice_scanner::scanner::{
    cell_text, detect_header_row, extract_headers, find_last_data_row, format_color_to_hex,
    scan_excel_schema, ScanError,
};
use invoice_scanner::workbook::{
    find_cell, find_sheet, has_sheet, read_cell, Cell, CellColor, CellFont, CellFormat, Sheet,
    Workbook,
};

fn empty_cell() -> Cell {
    Cell { text: None, format: None }
}

fn put(sheet: &mut Sheet, row: u32, col: u32, text: Option<&str>, format: Option<CellFormat>) {
    while sheet.rows.len() < row as usize {
        sheet.rows.push(Vec::new());
    }
    let cells = &mut sheet.rows[row as usize - 1];
    while cells.len() < col as usize {
        cells.push(empty_cell());
    }
    cells[col as usize - 1] = Cell { text: text.map(|t| t.to_string()), format };
    sheet.max_row = sheet.max_row.max(row);
}

fn sheet_with(name: &str, cells: &[(u32, u32, &str)]) -> Sheet {
    let mut sheet = Sheet {
        name: name.to_string(),
        rows: Vec::new(),
        max_row: 0,
        default_row_height: Real { bits: 15.0f64.to_bits() },
    };
    for (row, col, text) in cells {
        put(&mut sheet, *row, *col, Some(text), None);
    }
    sheet
}

fn workbook_with(sheet: &str, cells: &[(u32, u32, &str)]) -> Workbook {
    Workbook { sheets: vec![sheet_with("Other sheet", &[(1, 1, "elsewhere")]), sheet_with(sheet, cells)] }
}

fn format(font_color: CellColor, bold: bool, fill: CellColor) -> CellFormat {
    CellFormat {
        font: CellFont { name: "Calibri".to_string(), size: 12, color: font_color, bold, italic: false },
        fill,
    }
}

#[test]
fn sheets_and_cells_are_found_by_name_row_and_column() {
    let workbook = Workbook {
        sheets: vec![sheet_with("A", &[(2, 3, "first")]), sheet_with("B", &[(1, 1, "b")]), sheet_with("A", &[(2, 3, "second")])],
    };
    assert!(has_sheet(&workbook, "A"));
    assert!(has_sheet(&workbook, "B"));
    assert!(!has_sheet(&workbook, "a"));
    assert!(!has_sheet(&Workbook { sheets: Vec::new() }, "A"));
    assert_eq!(read_cell(&workbook, "A", 2, 3).unwrap().text.as_deref(), Some("first"));
    assert_eq!(read_cell(&workbook, "A", 2, 2), Some(&empty_cell()));
    assert_eq!(read_cell(&workbook, "A", 2, 4), None);
    assert_eq!(read_cell(&workbook, "A", 1, 1), None);
    assert_eq!(read_cell(&workbook, "A", 3, 1), None);
    assert_eq!(read_cell(&workbook, "A", 0, 3), None);
    assert_eq!(read_cell(&workbook, "A", 2, 0), None);
    assert_eq!(read_cell(&workbook, "C", 2, 3), None);
    let sheet = find_sheet(&workbook, "B").unwrap();
    assert_eq!(find_cell(sheet, 1, 1).unwrap().text.as_deref(), Some("b"));
    assert_eq!(find_cell(sheet, u32::MAX, u32::MAX), None);
}

#[test]
fn cell_text_reads_what_was_written() {
    let workbook = workbook_with("Invoices", &[(2, 3, "Total")]);
    assert_eq!(cell_text(&workbook, "Invoices", 2, 3), "Total");
    assert_eq!(cell_text(&workbook, "Invoices", 2, 4), "");
    assert_eq!(cell_text(&workbook, "Invoices", 9, 9), "");
    assert_eq!(cell_text(&workbook, "Missing", 2, 3), "");
}

#[test]
fn header_row_is_first_row_with_three_keywords() {
    let workbook = workbook_with(
        "Invoices",
        &[
            (1, 1, "Report"),
            (2, 1, "Date"),
            (2, 2, "printed"),
            (3, 1, "Invoice Number"),
            (3, 2, "Date"),
            (3, 3, "Seller"),
            (3, 4, "Note"),
            (4, 1, "Number"),
            (4, 2, "Date"),
            (4, 3, "Buyer"),
        ],
    );
    assert_eq!(detect_header_row(&workbook, "Invoices"), Ok(3));
}

#[test]
fn header_row_defaults_to_first_row() {
    let workbook = workbook_with("Invoices", &[(1, 1, "alpha"), (2, 1, "Date"), (2, 2, "Total")]);
    assert_eq!(detect_header_row(&workbook, "Invoices"), Ok(1));
}

#[test]
fn header_row_matches_cyrillic_keywords_in_any_case() {
    let workbook = workbook_with(
        "Invoices",
        &[(5, 1, "БРОЈ"), (5, 2, "Датум на документ"), (5, 3, "Вкупно")],
    );
    assert_eq!(detect_header_row(&workbook, "Invoices"), Ok(5));
}

#[test]
fn header_row_beyond_row_twenty_is_not_seen() {
    let workbook = workbook_with(
        "Invoices",
        &[(21, 1, "Number"), (21, 2, "Date"), (21, 3, "Total")],
    );
    assert_eq!(detect_header_row(&workbook, "Invoices"), Ok(1));
}

#[test]
fn missing_sheet_is_not_found() {
    let workbook = workbook_with("Invoices", &[(1, 1, "Number")]);
    assert_eq!(detect_header_row(&workbook, "Other"), Err(ScanError::NotFound));
    assert_eq!(extract_headers(&workbook, "Other", 1), Err(ScanError::NotFound));
    assert_eq!(find_last_data_row(&workbook, "Other", 1), Err(ScanError::NotFound));
    assert_eq!(scan_excel_schema(&workbook, "Other", 1, 2).err(), Some(ScanError::NotFound));
}

#[test]
fn headers_skip_blank_cells_and_stop_after_three() {
    let workbook = workbook_with(
        "Invoices",
        &[
            (1, 1, " Number "),
            (1, 2, "Date"),
            (1, 4, "Seller"),
            (1, 5, "   "),
            (1, 7, "Total"),
            (1, 11, "Hidden"),
        ],
    );
    let headers = extract_headers(&workbook, "Invoices", 1).unwrap();
    let found: Vec<(u16, &str, &str)> = headers
        .iter()
        .map(|h| (h.column_index, h.column_letter.as_str(), h.text.as_str()))
        .collect();
    assert_eq!(found, vec![(0, "A", "Number"), (1, "B", "Date"), (3, "D", "Seller"), (6, "G", "Total")]);
}

#[test]
fn headers_beyond_column_fifty_are_not_seen() {
    let mut cells: Vec<(u32, u32, &str)> = Vec::new();
    for col in 1..=52u32 {
        cells.push((1, col, "x"));
    }
    let workbook = workbook_with("Invoices", &cells);
    let headers = extract_headers(&workbook, "Invoices", 1).unwrap();
    assert_eq!(headers.len(), 50);
    assert_eq!(headers[49].column_index, 49);
    assert_eq!(headers[49].column_letter, "AX");
}

#[test]
fn last_data_row_is_header_row_without_data() {
    let workbook = workbook_with("Invoices", &[(3, 1, "Number"), (3, 2, "Date"), (3, 3, "Total")]);
    assert_eq!(find_last_data_row(&workbook, "Invoices", 3), Ok(3));
}

#[test]
fn last_data_row_bridges_short_gaps() {
    let workbook = workbook_with(
        "Invoices",
        &[(1, 1, "Number"), (2, 1, "a"), (3, 20, "b"), (4, 21, "outside"), (60, 2, "c"), (159, 1, "d")],
    );
    assert_eq!(find_last_data_row(&workbook, "Invoices", 1), Ok(159));
}

#[test]
fn last_data_row_stops_after_a_hundred_empty_rows() {
    let workbook = workbook_with("Invoices", &[(1, 1, "Number"), (2, 1, "a"), (103, 1, "late")]);
    assert_eq!(find_last_data_row(&workbook, "Invoices", 1), Ok(2));
    let workbook = workbook_with("Invoices", &[(1, 1, "Number"), (2, 1, "a"), (102, 1, "late")]);
    assert_eq!(find_last_data_row(&workbook, "Invoices", 1), Ok(102));
}

#[test]
fn scan_of_sheet_without_headers_is_empty_sheet() {
    let workbook = workbook_with("Invoices", &[(2, 1, "data")]);
    assert_eq!(scan_excel_schema(&workbook, "Invoices", 10, 20).err(), Some(ScanError::EmptySheet));
}

#[test]
fn scan_with_header_only_points_below_header() {
    let workbook = workbook_with("Invoices", &[(3, 1, "Number"), (3, 2, "Date"), (3, 3, "Total")]);
    let schema = scan_excel_schema(&workbook, "Invoices", 1234, 5678).unwrap();
    assert_eq!(schema.header_row, 3);
    assert_eq!(schema.first_data_row, 4);
    assert_eq!(schema.last_data_row, 3);
    assert_eq!(schema.next_free_row, 4);
    assert_eq!(schema.total_columns, 3);
    assert_eq!(schema.total_rows, 3);
    assert_eq!(f64::from_bits(schema.row_template.row_height.bits), 15.0);
    assert_eq!(schema.file_size, 1234);
    assert_eq!(schema.file_mtime, 5678);
    assert_eq!(schema.row_template.template_row_index, 4);
    assert!(!schema.row_template.use_alternating_colors);
    assert_eq!(schema.columns.len(), 3);
    assert_eq!(schema.columns[0].font_name, "Arial");
    assert_eq!(schema.columns[0].font_size, 11);
    assert_eq!(schema.columns[0].background_color, "#FFFFFF");
    assert_eq!(schema.columns[0].data_type, "text");
}

#[test]
fn scanning_twice_gives_the_same_schema() {
    let workbook = workbook_with(
        "Invoices",
        &[(1, 1, "Number"), (1, 2, "Date"), (1, 3, "Total"), (2, 1, "7"), (2, 2, "2024-01-05"), (2, 3, "x")],
    );
    let first = scan_excel_schema(&workbook, "Invoices", 11, 22).unwrap();
    let second = scan_excel_schema(&workbook, "Invoices", 11, 22).unwrap();
    assert_eq!(first, second);
    assert_eq!(first.next_free_row, first.last_data_row + 1);
    assert_eq!(first.columns[0].data_type, "number");
    assert_eq!(first.columns[1].data_type, "date");
    assert_eq!(first.columns[2].data_type, "text");
}

#[test]
fn scan_reads_font_and_background_of_template_row() {
    let mut sheet = sheet_with("Invoices", &[(1, 1, "Number"), (1, 2, "Date")]);
    let first = format(CellColor::Rgb(255, 0, 16), true, CellColor::Rgb(1, 171, 205));
    let second = format(CellColor::Default, false, CellColor::Rgb(238, 238, 238));
    put(&mut sheet, 2, 1, Some("1"), Some(first));
    put(&mut sheet, 3, 1, Some("2"), Some(second));
    let workbook = Workbook { sheets: vec![sheet] };
    let schema = scan_excel_schema(&workbook, "Invoices", 0, 0).unwrap();
    assert_eq!(schema.columns[0].font_name, "Calibri");
    assert_eq!(schema.columns[0].font_size, 12);
    assert_eq!(schema.columns[0].font_color, "#FF0010");
    assert!(schema.columns[0].font_bold);
    assert!(!schema.columns[0].font_italic);
    assert_eq!(schema.columns[0].background_color, "#01ABCD");
    assert_eq!(schema.columns[0].background_color_alt.as_deref(), Some("#EEEEEE"));
    assert_eq!(schema.columns[1].background_color, "#FFFFFF");
    assert_eq!(schema.columns[1].background_color_alt, None);
    assert!(schema.row_template.use_alternating_colors);
    assert_eq!(schema.last_data_row, 3);
    assert_eq!(schema.next_free_row, 4);
}

#[test]
fn alternate_background_needs_a_row_within_the_sheet_and_another_colour() {
    let grey = format(CellColor::Default, false, CellColor::Rgb(238, 238, 238));
    let mut sheet = sheet_with("Invoices", &[(1, 1, "Number")]);
    put(&mut sheet, 2, 1, Some("1"), Some(grey.clone()));
    put(&mut sheet, 3, 1, None, Some(grey.clone()));
    let same = Workbook { sheets: vec![sheet.clone()] };
    assert_eq!(scan_excel_schema(&same, "Invoices", 0, 0).unwrap().columns[0].background_color_alt, None);
    put(&mut sheet, 3, 1, None, Some(format(CellColor::Default, false, CellColor::Index(4))));
    let indexed = Workbook { sheets: vec![sheet.clone()] };
    assert_eq!(
        scan_excel_schema(&indexed, "Invoices", 0, 0).unwrap().columns[0].background_color_alt.as_deref(),
        Some("#000000")
    );
    sheet.max_row = 2;
    let short = Workbook { sheets: vec![sheet] };
    assert_eq!(scan_excel_schema(&short, "Invoices", 0, 0).unwrap().columns[0].background_color_alt, None);
}

#[test]
fn scan_reports_the_default_row_height_and_row_count() {
    let mut sheet = sheet_with("Invoices", &[(1, 1, "Number"), (7, 2, "x")]);
    sheet.default_row_height = Real { bits: 21.5f64.to_bits() };
    sheet.max_row = 9;
    let workbook = Workbook { sheets: vec![sheet] };
    let schema = scan_excel_schema(&workbook, "Invoices", 0, 0).unwrap();
    assert_eq!(f64::from_bits(schema.row_template.row_height.bits), 21.5);
    assert_eq!(schema.total_rows, 9);
    assert_eq!(f64::from_bits(schema.columns[0].column_width.bits), 10.0);
    assert_eq!(schema.last_data_row, 7);
}

#[test]
fn colours_that_are_not_rgb_are_black() {
    assert_eq!(format_color_to_hex(&CellColor::Default), "#000000");
    assert_eq!(format_color_to_hex(&CellColor::Index(3)), "#000000");
    assert_eq!(format_color_to_hex(&CellColor::Theme(1)), "#000000");
    assert_eq!(format_color_to_hex(&CellColor::Rgb(0, 0, 0)), "#000000");
    assert_eq!(format_color_to_hex(&CellColor::Rgb(255, 255, 255)), "#FFFFFF");
    assert_eq!(format_color_to_hex(&CellColor::Rgb(37, 99, 235)), "#2563EB");
    assert_eq!(format_color_to_hex(&CellColor::Rgb(10, 9, 160)), "#0A09A0");
}

#[test]
fn data_scan_reaches_ten_thousand_rows_below_the_header() {
    let mut sheet = sheet_with("Invoices", &[(1, 1, "Number")]);
    for k in 1..=101u32 {
        put(&mut sheet, 1 + 99 * k, 1, Some("x"), None);
    }
    let workbook = Workbook { sheets: vec![sheet.clone()] };
    assert_eq!(find_last_data_row(&workbook, "Invoices", 1), Ok(10000));
    put(&mut sheet, 10001, 1, Some("last row that is looked at"), None);
    put(&mut sheet, 10002, 1, Some("beyond"), None);
    let workbook = Workbook { sheets: vec![sheet] };
    assert_eq!(find_last_data_row(&workbook, "Invoices", 1), Ok(10001));
}

#[test]
fn data_scan_below_the_last_rows_finds_nothing() {
    let workbook = workbook_with("Invoices", &[(1, 1, "Number"), (2, 1, "x")]);
    assert_eq!(find_last_data_row(&workbook, "Invoices", u32::MAX), Ok(u32::MAX));
    assert_eq!(find_last_data_row(&workbook, "Invoices", u32::MAX - 1), Ok(u32::MAX - 1));
    assert_eq!(find_last_data_row(&workbook, "Invoices", 0), Ok(2));
    assert_eq!(find_last_data_row(&workbook, "Invoices", 2), Ok(2));
}
