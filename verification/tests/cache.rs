use invoice_scanner::cache::{
    clear_all_cache, get_cached_schema, invalidate_cache, set_cached_schema, SchemaCache,
};
use invoice_scanner::models::{ExcelSchema, Real, RowTemplate};

fn bare_schema(next_free_row: u32) -> ExcelSchema {
    ExcelSchema {
        header_row: 1,
        first_data_row: 2,
        last_data_row: next_free_row - 1,
        next_free_row,
        total_rows: 0,
        total_columns: 0,
        headers: Vec::new(),
        columns: Vec::new(),
        row_template: RowTemplate {
            template_row_index: 2,
            row_height: Real { bits: 0 },
            use_alternating_colors: false,
        },
        file_size: 0,
        file_mtime: 0,
    }
}

#[test]
fn new_cache_is_empty() {
    let cache = SchemaCache::new();
    assert!(get_cached_schema(&cache, 0).is_none());
    assert!(get_cached_schema(&cache, -1).is_none());
    assert!(get_cached_schema(&cache, i64::MAX).is_none());
}

#[test]
fn set_then_get_returns_the_schema() {
    let mut cache = SchemaCache::new();
    set_cached_schema(&mut cache, 1, bare_schema(5));
    assert_eq!(get_cached_schema(&cache, 1), Some(bare_schema(5)));
    assert!(get_cached_schema(&cache, 2).is_none());
}

#[test]
fn set_replaces_the_former_schema() {
    let mut cache = SchemaCache::new();
    set_cached_schema(&mut cache, 1, bare_schema(5));
    set_cached_schema(&mut cache, 1, bare_schema(9));
    assert_eq!(get_cached_schema(&cache, 1), Some(bare_schema(9)));
}

#[test]
fn invalidate_drops_one_profile_only() {
    let mut cache = SchemaCache::new();
    set_cached_schema(&mut cache, 1, bare_schema(5));
    set_cached_schema(&mut cache, 2, bare_schema(6));
    invalidate_cache(&mut cache, 1);
    assert!(get_cached_schema(&cache, 1).is_none());
    assert_eq!(get_cached_schema(&cache, 2), Some(bare_schema(6)));
    invalidate_cache(&mut cache, 1);
    invalidate_cache(&mut cache, 99);
    assert_eq!(get_cached_schema(&cache, 2), Some(bare_schema(6)));
}

#[test]
fn clear_all_drops_every_profile() {
    let mut cache = SchemaCache::new();
    set_cached_schema(&mut cache, 1, bare_schema(5));
    set_cached_schema(&mut cache, 2, bare_schema(6));
    clear_all_cache(&mut cache);
    assert!(get_cached_schema(&cache, 1).is_none());
    assert!(get_cached_schema(&cache, 2).is_none());
    set_cached_schema(&mut cache, 3, bare_schema(7));
    assert_eq!(get_cached_schema(&cache, 3), Some(bare_schema(7)));
}
