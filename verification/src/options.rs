//! Per-call options of a collection.

use crate::filter::{FilterModel, SqliteFilter};
use vstd::prelude::*;

verus! {

/// What a caller may set for one search.
#[derive(Debug, PartialEq)]
pub struct SqliteOptions {
    /// The filter that every result must meet, if any.
    pub filters: Option<SqliteFilter>,
}

impl SqliteOptions {
    /// The content of the filter, if one is set.
    pub open spec fn filter_model(self) -> Option<FilterModel> {
        match self.filters {
            Some(f) => Some(f@),
            None => None,
        }
    }

    /// Options with nothing set.
    pub fn new() -> (opt: SqliteOptions)
        ensures
            opt.filters is None,
    {
        SqliteOptions { filters: None }
    }

    /// The same options with `filters` as the filter.
    pub fn with_filters(self, filters: SqliteFilter) -> (opt: SqliteOptions)
        ensures
            opt.filters == Some(filters),
    {
        SqliteOptions { filters: Some(filters) }
    }
}

impl Default for SqliteOptions {
    fn default() -> (opt: SqliteOptions)
        ensures
            opt.filters is None,
    {
        SqliteOptions::new()
    }
}

} // verus!
