//! Store configuration.
//!
//! The backend store owns its schema; this crate only carries the
//! credentials handed to it and the table and column names under which the
//! alerts are persisted in a given deployment.

use vstd::prelude::*;

verus! {

/// Credentials of the backend store.
#[derive(Clone, Debug)]
pub struct Supabase {
    pub key: String,
    pub url: String,
}

/// Table and column names under which alerts are stored. Runtime
/// configuration: the same alert concept may be persisted under
/// differently-named tables per deployment.
#[derive(Clone)]
pub struct TableConfig {
    pub tablename: String,
    pub symbol_column_name: String,
    pub price_level_column_name: String,
    pub user_id_column_name: String,
    pub hash_column_name: String,
}

impl Supabase {
    /// Builds a store handle from a key and a URL.
    pub fn new(key: String, url: String) -> (s: Supabase)
        ensures
            s.key@ == key@,
            s.url@ == url@,
    {
        Supabase { key, url }
    }
}

impl TableConfig {
    /// All names are present (non-empty).
    pub open spec fn wf(&self) -> bool {
        &&& self.tablename@.len() > 0
        &&& self.symbol_column_name@.len() > 0
        &&& self.price_level_column_name@.len() > 0
        &&& self.user_id_column_name@.len() > 0
        &&& self.hash_column_name@.len() > 0
    }

    /// Builds a table configuration from the five names.
    pub fn new(
        tablename: String,
        hash_column_name: String,
        price_level_column_name: String,
        user_id_column_name: String,
        symbol_column_name: String,
    ) -> (c: TableConfig)
        ensures
            c.tablename@ == tablename@,
            c.hash_column_name@ == hash_column_name@,
            c.price_level_column_name@ == price_level_column_name@,
            c.user_id_column_name@ == user_id_column_name@,
            c.symbol_column_name@ == symbol_column_name@,
    {
        TableConfig {
            tablename,
            symbol_column_name,
            price_level_column_name,
            user_id_column_name,
            hash_column_name,
        }
    }
}

} // verus!
