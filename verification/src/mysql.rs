//! The MySQL dialect adapter: the exact statement texts the loader's
//! driver layer runs against a MySQL backend. The adapter only phrases
//! statements and carries what the driver learned; it never owns the
//! connection, and the per-table checksum store lives with the loader.

use vstd::prelude::*;

verus! {

/// MySQL helper: carries the base-table names and the current database
/// name once the driver layer has fetched them.
#[derive(Clone, Debug)]
pub struct MySql {
    pub table_names: Vec<String>,
    pub db_name: Option<String>,
}

impl Default for MySql {
    /// An adapter that has not seen the database yet.
    fn default() -> (r: MySql)
        ensures
            r.table_names@.len() == 0,
            r.db_name is None,
    {
        MySql { table_names: Vec::new(), db_name: None }
    }
}

impl MySql {
    /// The query that names the current database, for the safety check.
    pub fn database_name_sql() -> (r: &'static str)
        ensures
            r@ == "SELECT DATABASE()"@,
    {
        "SELECT DATABASE()"
    }

    /// The query that enumerates base tables (views excluded) of the
    /// schema bound as its one parameter.
    pub fn table_names_sql() -> (r: &'static str)
        ensures
            r@ == "SELECT table_name FROM information_schema.tables WHERE table_schema = ? AND table_type = 'BASE TABLE'"@,
    {
        "SELECT table_name FROM information_schema.tables WHERE table_schema = ? AND table_type = 'BASE TABLE'"
    }

    /// The native whole-table checksum command for `table`.
    pub fn checksum_sql(table: &str) -> (r: String)
        ensures
            r@ == "CHECKSUM TABLE "@ + table@,
    {
        let mut sql = String::new();
        sql.append("CHECKSUM TABLE ");
        sql.append(table);
        proof {
            assert(sql@ =~= "CHECKSUM TABLE "@ + table@);
        }
        sql
    }

    /// The statement that suspends or restores referential-integrity
    /// enforcement, so fixtures can load out of dependency order.
    pub fn foreign_key_checks_sql(enabled: bool) -> (r: &'static str)
        ensures
            enabled ==> r@ == "SET FOREIGN_KEY_CHECKS = 1"@,
            !enabled ==> r@ == "SET FOREIGN_KEY_CHECKS = 0"@,
    {
        if enabled {
            "SET FOREIGN_KEY_CHECKS = 1"
        } else {
            "SET FOREIGN_KEY_CHECKS = 0"
        }
    }
}

} // verus!
