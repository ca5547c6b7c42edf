use invoice_scanner::allocator::{
    append_error_message, append_to_excel_fast, get_excel_schema_for_profile, is_cache_valid, AppendError, Outcome,
    Phase, Reply, Run, Step,
};
use invoice_scanner::cache::{get_cached_schema, set_cached_schema, SchemaCache};
use invoice_scanner::fields::{ExcelProfile, InvoiceData, InvoiceFieldValue};
use invoice_scanner::models::{ExcelSchema, HeaderInfo, Real, RowTemplate};
use invoice_scanner::scanner::{scan_error_message, ScanError};

fn header(index: u16, letter: &str, text: &str) -> HeaderInfo {
    HeaderInfo { column_index: index, column_letter: letter.to_string(), text: text.to_string() }
}

fn schema(next_free_row: u32, file_mtime: u64) -> ExcelSchema {
    ExcelSchema {
        header_row: 1,
        first_data_row: 2,
        last_data_row: next_free_row - 1,
        next_free_row,
        total_rows: next_free_row - 1,
        total_columns: 3,
        headers: vec![header(0, "A", "Type"), header(1, "B", "Number"), header(3, "D", "Total")],
        columns: Vec::new(),
        row_template: RowTemplate {
            template_row_index: 2,
            row_height: Real { bits: 15.0f64.to_bits() },
            use_alternating_colors: false,
        },
        file_size: 1000,
        file_mtime,
    }
}

fn profile() -> ExcelProfile {
    ExcelProfile {
        id: 7,
        name: "Invoices".to_string(),
        excel_path: "invoices.xlsx".to_string(),
        sheet_name: "Sheet1".to_string(),
        column_mapping: vec![
            ("B".to_string(), "invoice_number".to_string()),
            ("D".to_string(), "total_amount".to_string()),
        ],
    }
}

fn record(fields: &[(&str, &str)]) -> InvoiceData {
    InvoiceData {
        fields: fields
            .iter()
            .map(|(k, v)| (k.to_string(), InvoiceFieldValue { value: v.to_string(), confidence: None }))
            .collect(),
        source_file: None,
    }
}

fn pair(a: &str, b: &str) -> (String, String) {
    (a.to_string(), b.to_string())
}

fn start_append(cache: &SchemaCache, data: &InvoiceData) -> (Run, Step) {
    let p = profile();
    append_to_excel_fast(cache, 7, Some(&p), data)
}

#[test]
fn cache_is_valid_only_for_equal_mtime() {
    let s = schema(42, 100);
    assert!(is_cache_valid(Some(100), &s));
    assert!(!is_cache_valid(Some(101), &s));
    assert!(!is_cache_valid(Some(99), &s));
    assert!(!is_cache_valid(None, &s));
}

#[test]
fn append_with_valid_mirror_writes_cached_next_row() {
    let mut cache = SchemaCache::new();
    set_cached_schema(&mut cache, 7, schema(42, 100));
    let data = record(&[("invoice_number", "INV-1")]);
    let (run, step) = start_append(&cache, &data);
    assert!(matches!(step, Step::StatFile));
    assert_eq!(run.phase, Phase::AwaitFileState);

    let (run, step) = run.advance(&mut cache, Reply::FileState(Some(100)));
    match step {
        Step::WriteRow { row, values } => {
            assert_eq!(row, 42);
            assert_eq!(values, vec![pair("A", "Фактура"), pair("B", "INV-1"), pair("D", "")]);
        }
        other => panic!("unexpected step {:?}", other),
    }
    let (run, step) = run.advance(&mut cache, Reply::Written(true));
    match step {
        Step::AdvancePointer { new_next_free_row, old_next_free_row } => {
            assert_eq!(new_next_free_row, 43);
            assert_eq!(old_next_free_row, 42);
        }
        other => panic!("unexpected step {:?}", other),
    }
    assert_eq!(get_cached_schema(&cache, 7).unwrap().next_free_row, 42);
    let (run, step) = run.advance(&mut cache, Reply::Advanced(true));
    assert!(matches!(step, Step::Done(Outcome::Row(42))));
    assert_eq!(run.phase, Phase::Finished);
    let cached = get_cached_schema(&cache, 7).unwrap();
    assert_eq!(cached.next_free_row, 43);
    assert_eq!(cached.last_data_row, 42);
    assert_eq!(cached.next_free_row, cached.last_data_row + 1);
    assert_eq!(cached.headers.len(), 3);
}

#[test]
fn append_after_external_change_rescans_first() {
    let mut cache = SchemaCache::new();
    set_cached_schema(&mut cache, 7, schema(42, 100));
    let data = record(&[("invoice_number", "INV-1"), ("document_type", "Сметка")]);
    let (run, _) = start_append(&cache, &data);

    let (run, step) = run.advance(&mut cache, Reply::FileState(Some(200)));
    assert!(matches!(step, Step::LoadSchema));
    assert!(get_cached_schema(&cache, 7).is_none());

    let (run, step) = run.advance(&mut cache, Reply::Loaded(None));
    assert!(matches!(step, Step::Scan));

    let mut fresh = schema(50, 200);
    fresh.headers.push(header(4, "E", "Note"));
    let (run, step) = run.advance(&mut cache, Reply::Scanned(Ok(fresh.clone())));
    match step {
        Step::SaveSchema(saved) => assert_eq!(saved, fresh),
        other => panic!("unexpected step {:?}", other),
    }
    assert!(get_cached_schema(&cache, 7).is_none());

    let (run, step) = run.advance(&mut cache, Reply::Saved(true));
    match step {
        Step::WriteRow { row, values } => {
            assert_eq!(row, 50);
            assert_eq!(
                values,
                vec![pair("A", "Сметка"), pair("B", "INV-1"), pair("D", ""), pair("E", "")]
            );
        }
        other => panic!("unexpected step {:?}", other),
    }
    assert_eq!(get_cached_schema(&cache, 7).unwrap(), fresh);
    let (run, _) = run.advance(&mut cache, Reply::Written(true));
    let (_, step) = run.advance(&mut cache, Reply::Advanced(true));
    assert!(matches!(step, Step::Done(Outcome::Row(50))));
    assert_eq!(get_cached_schema(&cache, 7).unwrap().next_free_row, 51);
}

#[test]
fn failed_write_leaves_pointer_alone() {
    let mut cache = SchemaCache::new();
    set_cached_schema(&mut cache, 7, schema(42, 100));
    let data = record(&[("invoice_number", "INV-1")]);
    let (run, _) = start_append(&cache, &data);
    let (run, _) = run.advance(&mut cache, Reply::FileState(Some(100)));
    let (run, step) = run.advance(&mut cache, Reply::Written(false));
    assert!(matches!(step, Step::Done(Outcome::Failed(AppendError::WriteFailed))));
    assert_eq!(run.phase, Phase::Finished);
    assert_eq!(get_cached_schema(&cache, 7).unwrap(), schema(42, 100));

    let (run, _) = start_append(&cache, &data);
    let (_, step) = run.advance(&mut cache, Reply::FileState(Some(100)));
    assert!(matches!(step, Step::WriteRow { row: 42, .. }));
}

#[test]
fn failed_pointer_update_is_surfaced_and_mirror_kept() {
    let mut cache = SchemaCache::new();
    set_cached_schema(&mut cache, 7, schema(42, 100));
    let data = record(&[]);
    let (run, _) = start_append(&cache, &data);
    let (run, _) = run.advance(&mut cache, Reply::FileState(Some(100)));
    let (run, _) = run.advance(&mut cache, Reply::Written(true));
    let (_, step) = run.advance(&mut cache, Reply::Advanced(false));
    assert!(matches!(step, Step::Done(Outcome::Failed(AppendError::StoreUpdateFailed))));
    assert_eq!(get_cached_schema(&cache, 7).unwrap().next_free_row, 42);
}

#[test]
fn append_without_profile_is_profile_not_found() {
    let cache = SchemaCache::new();
    let data = record(&[]);
    let (run, step) = append_to_excel_fast(&cache, 7, None, &data);
    assert!(matches!(step, Step::Done(Outcome::Failed(AppendError::ProfileNotFound))));
    assert_eq!(run.phase, Phase::Finished);
    let (_, step) = get_excel_schema_for_profile(&cache, 7, false, false);
    assert!(matches!(step, Step::Done(Outcome::Failed(AppendError::ProfileNotFound))));
}

#[test]
fn mirror_miss_loads_from_store_without_validation() {
    let mut cache = SchemaCache::new();
    let data = record(&[("total_amount", "12.50")]);
    let (run, step) = start_append(&cache, &data);
    assert!(matches!(step, Step::LoadSchema));
    let (_, step) = run.advance(&mut cache, Reply::Loaded(Some(schema(9, 1))));
    match step {
        Step::WriteRow { row, values } => {
            assert_eq!(row, 9);
            assert_eq!(values[2], pair("D", "12.50"));
        }
        other => panic!("unexpected step {:?}", other),
    }
    assert_eq!(get_cached_schema(&cache, 7).unwrap(), schema(9, 1));
}

#[test]
fn failed_scan_makes_schema_unavailable() {
    let mut cache = SchemaCache::new();
    let data = record(&[]);
    for error in [ScanError::NotFound, ScanError::ParseError, ScanError::EmptySheet] {
        let (run, _) = start_append(&cache, &data);
        let (run, _) = run.advance(&mut cache, Reply::Loaded(None));
        let (_, step) = run.advance(&mut cache, Reply::Scanned(Err(error)));
        match step {
            Step::Done(Outcome::Failed(AppendError::SchemaUnavailable(cause))) => {
                assert_eq!(cause, Some(error))
            }
            other => panic!("unexpected step {:?}", other),
        }
        assert!(get_cached_schema(&cache, 7).is_none());
    }
}

#[test]
fn failed_save_makes_schema_unavailable() {
    let mut cache = SchemaCache::new();
    let (run, _) = get_excel_schema_for_profile(&cache, 7, true, true);
    let (run, _) = run.advance(&mut cache, Reply::Scanned(Ok(schema(5, 1))));
    let (_, step) = run.advance(&mut cache, Reply::Saved(false));
    assert!(matches!(step, Step::Done(Outcome::Failed(AppendError::SchemaUnavailable(None)))));
    assert!(get_cached_schema(&cache, 7).is_none());
}

#[test]
fn schema_without_free_row_cannot_be_appended_to() {
    let mut cache = SchemaCache::new();
    let data = record(&[]);
    let (run, _) = start_append(&cache, &data);
    let mut full = schema(9, 1);
    full.next_free_row = u32::MAX;
    let (_, step) = run.advance(&mut cache, Reply::Loaded(Some(full)));
    assert!(matches!(step, Step::Done(Outcome::Failed(AppendError::SchemaUnavailable(None)))));
}

#[test]
fn get_schema_uses_valid_mirror_entry() {
    let mut cache = SchemaCache::new();
    set_cached_schema(&mut cache, 7, schema(42, 100));
    let (run, step) = get_excel_schema_for_profile(&cache, 7, true, false);
    assert!(matches!(step, Step::StatFile));
    let (_, step) = run.advance(&mut cache, Reply::FileState(Some(100)));
    match step {
        Step::Done(Outcome::Schema(s)) => assert_eq!(s, schema(42, 100)),
        other => panic!("unexpected step {:?}", other),
    }
    assert_eq!(get_cached_schema(&cache, 7).unwrap(), schema(42, 100));
}

#[test]
fn get_schema_never_returns_stale_mirror_entry() {
    let mut cache = SchemaCache::new();
    set_cached_schema(&mut cache, 7, schema(42, 100));
    for live in [Some(101), None] {
        set_cached_schema(&mut cache, 7, schema(42, 100));
        let (run, _) = get_excel_schema_for_profile(&cache, 7, true, false);
        let (run, step) = run.advance(&mut cache, Reply::FileState(live));
        assert!(matches!(step, Step::LoadSchema));
        assert!(get_cached_schema(&cache, 7).is_none());
        let (run, step) = run.advance(&mut cache, Reply::Loaded(None));
        assert!(matches!(step, Step::Scan));
        let (run, _) = run.advance(&mut cache, Reply::Scanned(Ok(schema(60, 101))));
        let (_, step) = run.advance(&mut cache, Reply::Saved(true));
        match step {
            Step::Done(Outcome::Schema(s)) => assert_eq!(s, schema(60, 101)),
            other => panic!("unexpected step {:?}", other),
        }
    }
}

#[test]
fn forced_refresh_goes_straight_to_scan() {
    let mut cache = SchemaCache::new();
    set_cached_schema(&mut cache, 7, schema(42, 100));
    let (run, step) = get_excel_schema_for_profile(&cache, 7, true, true);
    assert!(matches!(step, Step::Scan));
    assert_eq!(run.phase, Phase::AwaitScan);
    assert!(!run.expects(&Reply::Loaded(None)));
    assert!(run.expects(&Reply::Scanned(Err(ScanError::NotFound))));
}

#[test]
fn run_expects_only_the_reply_to_its_step() {
    let mut cache = SchemaCache::new();
    let (run, _) = get_excel_schema_for_profile(&cache, 7, true, false);
    assert!(run.expects(&Reply::Loaded(None)));
    assert!(!run.expects(&Reply::FileState(None)));
    assert!(!run.expects(&Reply::Written(true)));
    let (run, _) = run.advance(&mut cache, Reply::Loaded(Some(schema(3, 1))));
    assert!(!run.expects(&Reply::Loaded(None)));
    assert!(!run.expects(&Reply::Advanced(true)));
}

#[test]
fn pointer_update_touches_only_the_appended_profile() {
    let mut cache = SchemaCache::new();
    set_cached_schema(&mut cache, 7, schema(42, 100));
    set_cached_schema(&mut cache, 8, schema(10, 5));
    let data = record(&[]);
    let (run, _) = start_append(&cache, &data);
    let (run, _) = run.advance(&mut cache, Reply::FileState(Some(100)));
    let (run, _) = run.advance(&mut cache, Reply::Written(true));
    let _ = run.advance(&mut cache, Reply::Advanced(true));
    assert_eq!(get_cached_schema(&cache, 8).unwrap(), schema(10, 5));
    assert_eq!(get_cached_schema(&cache, 7).unwrap().next_free_row, 43);
}

#[test]
fn every_failure_has_a_message_of_its_own() {
    let messages = [
        append_error_message(AppendError::ProfileNotFound),
        append_error_message(AppendError::SchemaUnavailable(None)),
        append_error_message(AppendError::SchemaUnavailable(Some(ScanError::NotFound))),
        append_error_message(AppendError::SchemaUnavailable(Some(ScanError::ParseError))),
        append_error_message(AppendError::SchemaUnavailable(Some(ScanError::EmptySheet))),
        append_error_message(AppendError::WriteFailed),
        append_error_message(AppendError::StoreUpdateFailed),
    ];
    for (i, a) in messages.iter().enumerate() {
        assert!(!a.is_empty());
        for b in &messages[i + 1..] {
            assert_ne!(a, b);
        }
    }
    assert_eq!(messages[0], "Profile not found");
    assert_eq!(messages[4], "No headers found");
    assert_eq!(messages[4], scan_error_message(ScanError::EmptySheet));
    assert_eq!(scan_error_message(ScanError::NotFound), "File or worksheet not found");
    assert_eq!(scan_error_message(ScanError::ParseError), "Could not open Excel file");
}

#[test]
fn append_finds_the_binding_whatever_the_case_of_its_letters() {
    let mut cache = SchemaCache::new();
    let data = record(&[("invoice_number", "INV-1"), ("total_amount", "9")]);
    let mut p = profile();
    p.column_mapping = vec![("b".to_string(), "invoice_number".to_string()), ("d".to_string(), "total_amount".to_string())];
    let (run, _) = append_to_excel_fast(&cache, 7, Some(&p), &data);
    let (_, step) = run.advance(&mut cache, Reply::Loaded(Some(schema(42, 100))));
    match step {
        Step::WriteRow { row, values } => {
            assert_eq!(row, 42);
            assert_eq!(values, vec![pair("A", "Фактура"), pair("B", "INV-1"), pair("D", "9")]);
        }
        other => panic!("unexpected step {:?}", other),
    }
}
