use invoice_scanner::commands::{
    get_azure_status, get_excel_schema, header_row_or_first, row_cells_to_pairs, sample_row_count,
    validate_document_file, validate_excel_file, GetColumnSamplesPayload, ValidationResult,
};
use invoice_scanner::fields::RowCell;

fn invalid(reason: &str) -> ValidationResult {
    ValidationResult { valid: false, error: Some(reason.to_string()) }
}

fn valid() -> ValidationResult {
    ValidationResult { valid: true, error: None }
}

#[test]
fn documents_must_exist_be_small_and_begin_as_pdf() {
    let pdf = b"%PDF-1.7".to_vec();
    assert_eq!(validate_document_file(true, 10, &pdf), valid());
    assert_eq!(validate_document_file(true, 52428800, &b"%PDF-".to_vec()), valid());
    assert_eq!(validate_document_file(false, 10, &pdf), invalid("File not found."));
    assert_eq!(validate_document_file(true, 52428801, &pdf), invalid("File too large (max 50MB)."));
    assert_eq!(
        validate_document_file(true, 4, &b"%PDF".to_vec()),
        invalid("Not a valid PDF (could not read header).")
    );
    assert_eq!(validate_document_file(true, 8, &b"PK\x03\x04abcd".to_vec()), invalid("Not a valid PDF file."));
    assert_eq!(validate_document_file(true, 8, &b"%PDF+1.7".to_vec()), invalid("Not a valid PDF file."));
}

#[test]
fn workbooks_must_exist_be_small_zipped_and_writable() {
    let zip = vec![0x50, 0x4B, 0x03, 0x04];
    assert_eq!(validate_excel_file(true, 10, &zip, false), valid());
    assert_eq!(validate_excel_file(true, 104857600, &zip, false), valid());
    assert_eq!(validate_excel_file(false, 10, &zip, false), invalid("File not found."));
    assert_eq!(validate_excel_file(true, 104857601, &zip, false), invalid("File too large (max 100MB)."));
    assert_eq!(
        validate_excel_file(true, 3, &vec![0x50, 0x4B, 0x03], false),
        invalid("Not a valid Excel file (could not read header).")
    );
    assert_eq!(
        validate_excel_file(true, 10, &vec![0x50, 0x4B, 0x03, 0x05], false),
        invalid("Not a valid Excel file (.xlsx).")
    );
    assert_eq!(
        validate_excel_file(true, 10, &zip, true),
        invalid("Excel file is open. Please close it and try again.")
    );
    assert_eq!(validate_excel_file(false, 10, &zip, true), invalid("File not found."));
}

#[test]
fn schema_response_never_carries_file_bytes() {
    let hit = get_excel_schema(Some("{}".to_string()));
    assert!(hit.cached);
    assert_eq!(hit.schema_json.as_deref(), Some("{}"));
    assert_eq!(hit.file_bytes, None);
    let miss = get_excel_schema(None);
    assert!(!miss.cached);
    assert_eq!(miss.schema_json, None);
    assert_eq!(miss.file_bytes, None);
}

#[test]
fn row_cells_become_pairs_in_order() {
    let row = vec![
        RowCell { column: "B".to_string(), value: "2".to_string() },
        RowCell { column: "A".to_string(), value: "1".to_string() },
    ];
    assert_eq!(
        row_cells_to_pairs(row),
        vec![("B".to_string(), "2".to_string()), ("A".to_string(), "1".to_string())]
    );
    assert_eq!(row_cells_to_pairs(Vec::new()), Vec::new());
}

#[test]
fn sample_rows_default_to_ten() {
    let mut payload = GetColumnSamplesPayload {
        path: "p".to_string(),
        sheet: "s".to_string(),
        header_row: None,
        max_rows: None,
    };
    assert_eq!(sample_row_count(&payload), 10);
    payload.max_rows = Some(0);
    assert_eq!(sample_row_count(&payload), 0);
    payload.max_rows = Some(3);
    assert_eq!(sample_row_count(&payload), 3);
}

#[test]
fn header_rows_below_one_become_one() {
    assert_eq!(header_row_or_first(-5), 1);
    assert_eq!(header_row_or_first(0), 1);
    assert_eq!(header_row_or_first(1), 1);
    assert_eq!(header_row_or_first(17), 17);
    assert_eq!(header_row_or_first(i32::MAX), 2147483647);
    assert_eq!(header_row_or_first(i32::MIN), 1);
}

#[test]
fn reader_is_configured_with_key_and_endpoint() {
    assert_eq!(get_azure_status(Some("k"), Some("https://x")), "configured");
    assert_eq!(get_azure_status(Some("  "), Some("https://x")), "not_configured");
    assert_eq!(get_azure_status(Some("k"), Some("")), "not_configured");
    assert_eq!(get_azure_status(None, Some("https://x")), "not_configured");
    assert_eq!(get_azure_status(Some("k"), None), "not_configured");
    assert_eq!(get_azure_status(None, None), "not_configured");
}
