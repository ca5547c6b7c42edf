use invoice_scanner::models::{ExcelSchema, HeaderInfo, Real, RowTemplate};
use invoice_scanner::store::{
    get_history,
    load_excel_schema, save_excel_schema, update_excel_schema_next_free_row, ChangeRecord,
    PointerUpdate, SchemaRecord,
};

fn schema() -> ExcelSchema {
    ExcelSchema {
        header_row: 3,
        first_data_row: 4,
        last_data_row: 41,
        next_free_row: 42,
        total_rows: 50,
        total_columns: 1,
        headers: vec![HeaderInfo { column_index: 0, column_letter: "A".to_string(), text: "Number".to_string() }],
        columns: Vec::new(),
        row_template: RowTemplate {
            template_row_index: 4,
            row_height: Real { bits: 14.4f64.to_bits() },
            use_alternating_colors: true,
        },
        file_size: 123456,
        file_mtime: 1700000000,
    }
}

#[test]
fn saved_record_holds_the_row_bookkeeping() {
    let record = save_excel_schema(9, &schema());
    assert_eq!(
        record,
        SchemaRecord {
            profile_id: 9,
            header_row: 3,
            first_data_row: 4,
            last_data_row: 41,
            next_free_row: 42,
            total_rows: 50,
            total_columns: 1,
            file_size: 123456,
            file_mtime: 1700000000,
        }
    );
}

#[test]
fn saved_schema_loads_unchanged() {
    let mut s = schema();
    s.file_size = u64::MAX;
    s.file_mtime = 1 << 63;
    s.total_rows = u32::MAX;
    s.total_columns = u16::MAX;
    let record = save_excel_schema(9, &s);
    assert_eq!(record.file_size, -1);
    assert_eq!(record.file_mtime, i64::MIN);
    let loaded = load_excel_schema(&record, s.headers.clone(), s.columns.clone(), s.row_template);
    assert_eq!(loaded, s);
}

#[test]
fn loading_keeps_the_low_bits_of_each_number() {
    let record = SchemaRecord {
        profile_id: 1,
        header_row: (1 << 32) + 5,
        first_data_row: -1,
        last_data_row: 7,
        next_free_row: 8,
        total_rows: 0,
        total_columns: 65536 + 3,
        file_size: -2,
        file_mtime: 0,
    };
    let s = schema();
    let loaded = load_excel_schema(&record, Vec::new(), Vec::new(), s.row_template);
    assert_eq!(loaded.header_row, 5);
    assert_eq!(loaded.first_data_row, u32::MAX);
    assert_eq!(loaded.total_columns, 3);
    assert_eq!(loaded.file_size, u64::MAX - 1);
}

#[test]
fn pointer_update_sets_last_data_row_before_next_free_row() {
    let (update, change) = update_excel_schema_next_free_row(9, 43, 42);
    assert_eq!(update, PointerUpdate { profile_id: 9, next_free_row: 43, last_data_row: 42 });
    assert_eq!(
        change,
        ChangeRecord {
            profile_id: 9,
            reason: "row_added".to_string(),
            old_next_free_row: 42,
            new_next_free_row: 43,
        }
    );
    let (update, _) = update_excel_schema_next_free_row(1, 1, 0);
    assert_eq!(update.last_data_row, 0);
    let (update, _) = update_excel_schema_next_free_row(1, u32::MAX, u32::MAX - 1);
    assert_eq!(update.next_free_row, 4294967295);
    assert_eq!(update.next_free_row, update.last_data_row + 1);
}

#[test]
fn history_query_without_filters_selects_everything() {
    let q = get_history(None, None);
    assert_eq!(
        q.sql,
        "SELECT id, created_at, document_type, file_path_or_name, extracted_data, status, excel_profile_id, error_message FROM history ORDER BY created_at DESC"
    );
    assert_eq!(q.pattern, None);
    assert_eq!(q.folder, None);
}

#[test]
fn history_query_binds_pattern_then_folder() {
    let q = get_history(Some("INV"), Some(4));
    assert!(q.sql.ends_with(
        "FROM history WHERE (file_path_or_name LIKE ?1 OR extracted_data LIKE ?1) AND folder_id = ?2 ORDER BY created_at DESC"
    ));
    assert_eq!(q.pattern.as_deref(), Some("%INV%"));
    assert_eq!(q.folder, Some(4));
    let q = get_history(None, Some(4));
    assert!(q.sql.ends_with("FROM history WHERE folder_id = ?1 ORDER BY created_at DESC"));
    assert_eq!(q.pattern, None);
    assert_eq!(q.folder, Some(4));
    let q = get_history(Some(""), None);
    assert!(q.sql.ends_with(
        "FROM history WHERE (file_path_or_name LIKE ?1 OR extracted_data LIKE ?1) ORDER BY created_at DESC"
    ));
    assert_eq!(q.pattern.as_deref(), Some("%%"));
}

#[test]
fn history_query_for_no_folder_binds_no_folder() {
    let q = get_history(None, Some(-1));
    assert!(q.sql.ends_with("FROM history WHERE folder_id IS NULL ORDER BY created_at DESC"));
    assert_eq!(q.folder, None);
    let q = get_history(Some("x"), Some(-1));
    assert!(q.sql.ends_with(
        "FROM history WHERE (file_path_or_name LIKE ?1 OR extracted_data LIKE ?1) AND folder_id IS NULL ORDER BY created_at DESC"
    ));
    assert_eq!(q.pattern.as_deref(), Some("%x%"));
    assert_eq!(q.folder, None);
}
