//! The in-memory mirror of scanned schemas, one per profile.
//!
//! The mirror is an explicit value, so that each user (or each test) can hold
//! its own. It is not persisted; it is refilled on demand.

use vstd::prelude::*;
use std::collections::HashMap;
use crate::models::{ExcelSchema, ExcelSchemaView};

verus! {

broadcast use vstd::std_specs::hash::group_hash_axioms;

/// The mirror: the most recently known-good schema of each profile.
pub struct SchemaCache {
    entries: HashMap<i64, ExcelSchema>,
}

impl View for SchemaCache {
    type V = Map<i64, ExcelSchemaView>;

    closed spec fn view(&self) -> Map<i64, ExcelSchemaView> {
        Map::new(|id: i64| self.entries@.contains_key(id), |id: i64| self.entries@[id]@)
    }
}

impl SchemaCache {
    /// An empty mirror.
    pub fn new() -> (cache: Self)
        ensures
            cache@ == Map::<i64, ExcelSchemaView>::empty(),
    {
        let cache = SchemaCache { entries: HashMap::new() };
        assert(cache@ =~= Map::<i64, ExcelSchemaView>::empty());
        cache
    }
}

/// The schema that the mirror holds for a profile, if it holds one.
pub fn get_cached_schema(cache: &SchemaCache, profile_id: i64) -> (r: Option<ExcelSchema>)
    ensures
        r is Some <==> cache@.contains_key(profile_id),
        r matches Some(schema) ==> schema@ == cache@[profile_id],
{
    match cache.entries.get(&profile_id) {
        Some(schema) => Some(schema.clone()),
        None => None,
    }
}

/// Stores a schema for a profile, in place of the one held before.
pub fn set_cached_schema(cache: &mut SchemaCache, profile_id: i64, schema: ExcelSchema)
    ensures
        final(cache)@ == old(cache)@.insert(profile_id, schema@),
{
    cache.entries.insert(profile_id, schema);
    assert(cache@ =~= old(cache)@.insert(profile_id, schema@));
}

/// Drops the schema of one profile; the others stay.
pub fn invalidate_cache(cache: &mut SchemaCache, profile_id: i64)
    ensures
        final(cache)@ == old(cache)@.remove(profile_id),
{
    cache.entries.remove(&profile_id);
    assert(cache@ =~= old(cache)@.remove(profile_id));
}

/// Drops every schema.
pub fn clear_all_cache(cache: &mut SchemaCache)
    ensures
        final(cache)@ == Map::<i64, ExcelSchemaView>::empty(),
{
    cache.entries.clear();
    assert(cache@ =~= Map::<i64, ExcelSchemaView>::empty());
}

} // verus!
