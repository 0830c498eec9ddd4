//! Search options. The ranking itself (vector distance first, then fuzzy text
//! similarity) is done by the database on floating-point distances.
use vstd::prelude::*;

use crate::json::JsonValue;

verus! {

/// Number of hits returned when the caller does not ask for a number.
pub const DEFAULT_SEARCH_LIMIT: i64 = 10;

/// Options for a search: an optional entity type, an optional JSONB containment filter
/// (`data @> filter`, e.g. `{"status": "active"}`), and the number of hits wanted (clamped
/// to `1..=200` when the search runs).
#[derive(Debug, Clone, PartialEq, Eq)]
pub struct SearchQuery {
    pub entity_type: Option<String>,
    pub filter: Option<JsonValue>,
    pub limit: i64,
}

impl Default for SearchQuery {
    fn default() -> (r: Self)
        ensures
            r.entity_type is None,
            r.filter is None,
            r.limit == DEFAULT_SEARCH_LIMIT,
    {
        SearchQuery { entity_type: None, filter: None, limit: DEFAULT_SEARCH_LIMIT }
    }
}

} // verus!
